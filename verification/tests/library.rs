use rusty_crab::config::{AppConfig, CliArgs, ConfigSettings, ConfigStore};
use rusty_crab::factory::{BuilderParts, ExplorerFactory, ExplorerKind};
use rusty_crab::gui::{GuiEventBuffer, OrchestratorEvent};
use rusty_crab::idmap::IdMap;
use rusty_crab::bag::ResourceBag;
use rusty_crab::resources::{BasicResourceType, ComplexResourceType, ResourceType};

fn args() -> CliArgs {
    CliArgs { config: "config.toml".to_string(), log_level: "info".to_string(), log_file: None }
}

fn no_settings() -> ConfigSettings {
    ConfigSettings { max_wait_time_ms: None, number_of_planets: None, explorers: None, show_gui: None, initial_planet_id: None }
}

#[test]
fn config_defaults_fill_missing_settings() {
    let c = AppConfig::from_settings(no_settings(), args());
    assert_eq!(c.max_wait_time_ms, 2000);
    assert_eq!(c.number_of_planets, 7);
    assert!(c.explorers.is_empty());
    assert!(!c.show_gui);
    assert_eq!(c.initial_planet_id, 1);
    assert_eq!(c.log_level, "info");
    assert_eq!(c.log_file, None);
}

#[test]
fn config_settings_override_defaults() {
    let settings = ConfigSettings {
        max_wait_time_ms: Some(50),
        number_of_planets: Some(3),
        explorers: Some(vec!["samufaz".to_string()]),
        show_gui: Some(true),
        initial_planet_id: Some(2),
    };
    let a = CliArgs { config: "other.toml".to_string(), log_level: "debug".to_string(), log_file: Some("out.log".to_string()) };
    let c = AppConfig::from_settings(settings, a);
    assert_eq!(c.max_wait_time_ms, 50);
    assert_eq!(c.number_of_planets, 3);
    assert_eq!(c.explorers, vec!["samufaz".to_string()]);
    assert!(c.show_gui);
    assert_eq!(c.initial_planet_id, 2);
    assert_eq!(c.log_level, "debug");
    assert_eq!(c.log_file, Some("out.log".to_string()));
}

#[test]
fn config_read_gives_back_what_was_set() {
    let mut store = ConfigStore::new();
    assert!(!store.is_initialized());
    let mut settings = no_settings();
    settings.number_of_planets = Some(12);
    AppConfig::init(&mut store, settings, args());
    assert!(store.is_initialized());
    let c = AppConfig::get(&store);
    assert_eq!(c.number_of_planets, 12);
    assert_eq!(c.max_wait_time_ms, 2000);
}

#[test]
fn factory_ignores_case() {
    assert_eq!(ExplorerFactory::make_from_name(&"samufaz".to_string()), ExplorerKind::SamuFaz);
    assert_eq!(ExplorerFactory::make_from_name(&"SamuFaz".to_string()), ExplorerKind::SamuFaz);
    assert_eq!(ExplorerFactory::make_from_name(&"EXAMPLE".to_string()), ExplorerKind::Example);
    assert!(ExplorerFactory::is_known_name(&"Example".to_string()));
}

#[test]
fn factory_defaults_to_example() {
    assert_eq!(ExplorerFactory::make_from_name(&"unknown".to_string()), ExplorerKind::Example);
    assert_eq!(ExplorerFactory::make_from_name(&"samufaz2".to_string()), ExplorerKind::Example);
    assert_eq!(ExplorerFactory::make_from_name(&"".to_string()), ExplorerKind::Example);
    assert!(!ExplorerFactory::is_known_name(&"unknown".to_string()));
}

#[test]
fn builder_reports_first_missing_part() {
    let mut p = BuilderParts::new();
    assert_eq!(p.check().unwrap_err(), "Explorer ID not set");
    p.id = Some(4);
    assert_eq!(p.check().unwrap_err(), "Orchestrator RX channel not set");
    p.has_orchestrator_rx = true;
    assert_eq!(p.check().unwrap_err(), "Orchestrator TX channel not set");
    p.has_orchestrator_tx = true;
    assert_eq!(p.check().unwrap_err(), "Planet RX channel not set");
    p.has_planet_rx = true;
    assert_eq!(p.check().unwrap_err(), "Current planet ID not set");
    p.current_planet = Some(2);
    assert_eq!(p.check().unwrap_err(), "Current planet TX channel not set");
    p.has_current_planet_tx = true;
    assert_eq!(p.check().unwrap(), (4, 2));
}

#[test]
fn gui_events_drain_in_order() {
    let mut b = GuiEventBuffer::new();
    b.sunray_sent(1);
    b.asteroid_sent(2);
    b.explorer_moved(1, 3);
    b.sunray_received(1);
    b.planet_destroyed(2);
    let events = b.drain_events();
    assert_eq!(events, vec![
        OrchestratorEvent::SunraySent { planet_id: 1 },
        OrchestratorEvent::AsteroidSent { planet_id: 2 },
        OrchestratorEvent::ExplorerMoved { origin: 1, destination: 3 },
        OrchestratorEvent::SunrayReceived { planet_id: 1 },
        OrchestratorEvent::PlanetDestroyed { planet_id: 2 },
    ]);
    assert!(b.drain_events().is_empty());
}

#[test]
fn idmap_read_gives_back_the_last_write() {
    let mut m: IdMap<u32> = IdMap::new();
    m.insert(3, 30);
    m.insert(5, 50);
    m.insert(3, 31);
    assert_eq!(m.get(3), Some(&31));
    assert_eq!(m.get(5), Some(&50));
    assert_eq!(m.get(4), None);
    assert_eq!(m.len(), 2);
    assert_eq!(m.keys(), vec![3, 5]);
    assert!(m.contains_key(5));
}

#[test]
fn pop_gives_back_the_pushed_item() {
    let mut bag: ResourceBag<u32> = ResourceBag::new();
    bag.push(ResourceType::Basic(BasicResourceType::Carbon), 1);
    bag.push(ResourceType::Basic(BasicResourceType::Carbon), 2);
    assert_eq!(bag.count(ResourceType::Basic(BasicResourceType::Carbon)), 2);
    assert_eq!(bag.pop(ResourceType::Basic(BasicResourceType::Carbon)), Some(2));
    assert_eq!(bag.count(ResourceType::Basic(BasicResourceType::Carbon)), 1);
    assert_eq!(bag.pop(ResourceType::Complex(ComplexResourceType::Water)), None);
}

#[test]
fn refused_take_two_leaves_the_bag() {
    let mut bag: ResourceBag<u32> = ResourceBag::new();
    bag.push(ResourceType::Basic(BasicResourceType::Carbon), 1);
    let c = ResourceType::Basic(BasicResourceType::Carbon);
    assert_eq!(bag.take_two(c, c), None);
    assert_eq!(bag.count(c), 1);
    bag.push(c, 2);
    assert_eq!(bag.take_two(c, c), Some((2, 1)));
    assert_eq!(bag.count(c), 0);
}
