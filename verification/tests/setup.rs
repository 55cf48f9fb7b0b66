use config::Config;
use riker_cqrs::{ConfigFault, Entity, EntityActor, EntityActorConfig, EntityActorProps, SLEEP_AFTER_KEY};

#[derive(Clone)]
struct Names;

impl EntityActorProps for Names {
    type Msg = u8;
    type Prod = String;

    fn props(&self, id: String) -> String {
        id
    }
}

fn system_config(sleep_after_secs: i64) -> Config {
    let mut cfg = Config::new();
    cfg.set("cqrs.sleep_after_secs", sleep_after_secs).unwrap();
    cfg
}

#[test]
fn the_key_of_the_window() {
    assert_eq!(SLEEP_AFTER_KEY, "cqrs.sleep_after_secs");
}

#[test]
fn a_supervisor_is_registered_under_its_prefixed_name() {
    let prepared = Entity::new(&system_config(120), Names, "BankAccont", None);
    let registration = match prepared {
        Ok(registration) => registration,
        Err(_) => panic!("the configuration holds a window"),
    };
    assert_eq!(registration.actor_name, "entity-BankAccont");
    assert_eq!(registration.args.0, "BankAccont");
    assert_eq!(registration.args.2, EntityActorConfig { sleep_after_secs: 120 });

    let actor: EntityActor<Names, u32> = EntityActor::actor(registration.args);
    assert_eq!(actor.name(), "BankAccont");
    assert_eq!(actor.sleep_after_secs(), 120);
    assert_eq!(actor.running(), 0);
}

#[test]
fn given_settings_take_the_place_of_the_configured_ones() {
    let given = EntityActorConfig { sleep_after_secs: 5 };
    match Entity::new(&system_config(120), Names, "orders", Some(given)) {
        Ok(registration) => {
            assert_eq!(registration.actor_name, "entity-orders");
            assert_eq!(registration.args.2, given);
        }
        Err(_) => panic!("the configuration holds a window"),
    }
}

#[test]
fn an_empty_name_is_registered_as_the_bare_prefix() {
    match Entity::new(&system_config(1), Names, "", None) {
        Ok(registration) => {
            assert_eq!(registration.actor_name, "entity-");
            assert_eq!(registration.args.0, "");
        }
        Err(_) => panic!("the configuration holds a window"),
    }
}

#[test]
fn a_configuration_without_a_window_stops_the_setup() {
    match Entity::new(&Config::new(), Names, "orders", None) {
        Err(fault) => assert_eq!(fault, ConfigFault::Unreadable),
        Ok(_) => panic!("the configuration holds no window"),
    }
    // The configuration is read in any case.
    let given = EntityActorConfig { sleep_after_secs: 5 };
    match Entity::new(&Config::new(), Names, "orders", Some(given)) {
        Err(fault) => assert_eq!(fault, ConfigFault::Unreadable),
        Ok(_) => panic!("the configuration holds no window"),
    }
}

#[test]
fn a_negative_window_stops_the_setup() {
    match Entity::new(&system_config(-60), Names, "orders", None) {
        Err(fault) => assert_eq!(fault, ConfigFault::Negative),
        Ok(_) => panic!("the window is negative"),
    }
}
