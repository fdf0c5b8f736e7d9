use dragit::firewall::{
    catch_dbus_error, default_zone_path, handle_plan, rules_from_ports, rules_from_services,
    FirewallStep, ServiceConfig,
};

#[test]
fn service_config_opens_the_tcp_port() {
    let c = ServiceConfig::new("36571".to_string());
    assert_eq!(c.version, "");
    assert_eq!(c.short, "Dragit");
    assert_eq!(c.description, "Dragit is a local network file sharing application");
    assert_eq!(c.ports, vec![("36571".to_string(), "tcp".to_string())]);
    assert!(c.module_names.is_empty());
    assert!(c.destinations.is_empty());
    assert!(c.protocols.is_empty());
    assert!(c.source_ports.is_empty());
}

#[test]
fn expected_dbus_errors_are_caught() {
    assert_eq!(catch_dbus_error("org.fedoraproject.FirewallD1.Exception: NAME_CONFLICT: dragit", "NAME_CONFLICT"), Ok(()));
    assert_eq!(
        catch_dbus_error("ACCESS_DENIED", "NAME_CONFLICT"),
        Err("ACCESS_DENIED".to_string())
    );
}

#[test]
fn open_ports_need_nothing() {
    assert_eq!(rules_from_ports(true, true), Some((false, false)));
    assert_eq!(rules_from_ports(true, false), None);
    assert_eq!(rules_from_ports(false, true), None);
}

#[test]
fn services_needed() {
    assert_eq!(rules_from_services(true, Ok(true)), Ok((false, false)));
    assert_eq!(rules_from_services(false, Ok(false)), Ok((true, true)));
    assert_eq!(
        rules_from_services(true, Err("INVALID_SERVICE: dragit".to_string())),
        Ok((false, true))
    );
    assert_eq!(
        rules_from_services(true, Err("NOT_AUTHORIZED".to_string())),
        Err("NOT_AUTHORIZED".to_string())
    );
}

#[test]
fn plan_for_both_services() {
    let plan = handle_plan((true, true), 36571);
    assert_eq!(plan.len(), 5);
    assert!(matches!(plan[0], FirewallStep::FindDefaultZone));
    match &plan[1] {
        FirewallStep::AddService(c) => assert_eq!(c.ports[0].0, "36571"),
        _ => panic!("expected the service to be added"),
    }
    assert!(matches!(&plan[2], FirewallStep::EnableInZone(s) if s == "dragit"));
    assert!(matches!(&plan[3], FirewallStep::EnableInZone(s) if s == "mdns"));
    assert!(matches!(plan[4], FirewallStep::Reload));
}

#[test]
fn plan_for_mdns_only_and_for_nothing() {
    let plan = handle_plan((true, false), 1);
    assert_eq!(plan.len(), 3);
    assert!(matches!(&plan[1], FirewallStep::EnableInZone(s) if s == "mdns"));
    assert!(handle_plan((false, false), 1).is_empty());
    let dragit = handle_plan((false, true), 0);
    assert_eq!(dragit.len(), 4);
    match &dragit[1] {
        FirewallStep::AddService(c) => assert_eq!(c.ports[0].0, "0"),
        _ => panic!("expected the service to be added"),
    }
}

#[test]
fn step_outcomes() {
    let add = FirewallStep::AddService(ServiceConfig::new("1".to_string()));
    assert_eq!(add.outcome(Ok(())), Ok(()));
    assert_eq!(add.outcome(Err("NAME_CONFLICT".to_string())), Ok(()));
    assert_eq!(add.outcome(Err("ALREADY_ENABLED".to_string())), Err("ALREADY_ENABLED".to_string()));
    let enable = FirewallStep::EnableInZone("mdns".to_string());
    assert_eq!(enable.outcome(Err("ALREADY_ENABLED: mdns".to_string())), Ok(()));
    let reload = FirewallStep::Reload;
    assert_eq!(reload.outcome(Err("ALREADY_ENABLED".to_string())), Err("ALREADY_ENABLED".to_string()));
}

#[test]
fn default_zone_lookup() {
    let names = vec!["public".to_string(), "home".to_string(), "public".to_string()];
    let paths = vec!["/zones/0".to_string(), "/zones/1".to_string(), "/zones/2".to_string()];
    assert_eq!(default_zone_path("home", &names, &paths), Ok("/zones/1".to_string()));
    assert_eq!(default_zone_path("public", &names, &paths), Ok("/zones/2".to_string()));
    assert_eq!(
        default_zone_path("work", &names, &paths),
        Err("Could not determine the default firewall zone".to_string())
    );
    let short = vec!["/zones/0".to_string()];
    assert_eq!(default_zone_path("public", &names, &short), Ok("/zones/0".to_string()));
}

#[test]
fn firewall_prompt_names_the_ports() {
    assert_eq!(
        dragit::firewall::firewall_prompt(36571),
        "Your current firewall configuration prevents Dragit from working.\n\nDragit can configure the firewall for you. Would you like it to do so?\nIf yes, you'll be prompted for password.\n\nFollowing ports will be added:\n- tcp 5353\n- tcp 36571"
    );
}
