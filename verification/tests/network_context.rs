use kokorobox_native::platform::{
    airport_key, default_interface, empty_network_context, get_network_context,
    linux_dns_servers, linux_network_context, linux_ssid, mac_primary_network,
    resolv_conf_dns_servers, resolvectl_candidates, service_dns_key, service_setup_key,
    windows_ip_configuration, windows_network_context, windows_ssid, AdapterRecord,
    NetworkFacts, WlanInterfaceRecord,
};

const ROUTES: &str = "Iface\tDestination\tGateway \tFlags\tRefCnt\tUse\tMetric\tMask\n\
docker0\t000011AC\t00000000\t0001\t0\t0\t0\t0000FFFF\n\
wlp2s0\t00000000\t0100A8C0\t0003\t0\t0\t600\t00000000\n\
eth0\t00000000\t0101A8C0\t0003\t0\t0\t700\t00000000\n";

#[test]
fn default_interface_is_first_gateway_route() {
    assert_eq!(default_interface(ROUTES), Some("wlp2s0".to_string()));
}

#[test]
fn default_interface_ignores_routes_without_gateway_flag() {
    let routes = "Iface\tDestination\tGateway\tFlags\n\
lo\t00000000\t00000000\t0001\n";
    assert_eq!(default_interface(routes), None);
    assert_eq!(default_interface("Iface\tDestination\tGateway\tFlags\n"), None);
    assert_eq!(default_interface(""), None);
}

#[test]
fn resolv_conf_servers_are_sorted_and_unique() {
    let content = "# generated\nnameserver 9.9.9.9\nsearch lan\nnameserver 1.1.1.1\nnameserver 9.9.9.9\nnameserver\n";
    assert_eq!(
        resolv_conf_dns_servers(content),
        vec!["1.1.1.1".to_string(), "9.9.9.9".to_string()]
    );
    assert!(resolv_conf_dns_servers("search lan\n").is_empty());
}

#[test]
fn resolvectl_candidates_follow_the_first_colon() {
    assert_eq!(
        resolvectl_candidates("Link 2 (wlp2s0): 192.168.0.1 fe80::1\n"),
        vec!["192.168.0.1".to_string(), "fe80::1".to_string()]
    );
    assert!(resolvectl_candidates("no servers here").is_empty());
}

#[test]
fn linux_dns_prefers_resolved_addresses() {
    let candidates = vec!["192.168.0.1".to_string(), "garbage".to_string(), "10.0.0.1".to_string()];
    let flags = vec![true, false, true];
    let conf = Some("nameserver 8.8.8.8\n".to_string());
    assert_eq!(
        linux_dns_servers(&candidates, &flags, &conf),
        vec!["192.168.0.1".to_string(), "10.0.0.1".to_string()]
    );
}

#[test]
fn linux_dns_falls_back_to_resolv_conf() {
    let candidates = vec!["garbage".to_string()];
    let flags = vec![false];
    let conf = Some("nameserver 8.8.8.8\nnameserver 1.0.0.1\n".to_string());
    assert_eq!(
        linux_dns_servers(&candidates, &flags, &conf),
        vec!["1.0.0.1".to_string(), "8.8.8.8".to_string()]
    );
    assert!(linux_dns_servers(&candidates, &flags, &None).is_empty());
}

#[test]
fn linux_ssid_uses_first_available_tool() {
    assert_eq!(
        linux_ssid(&Some("  Home  \n".to_string()), &Some("Other".to_string()), &None),
        Some("Home".to_string())
    );
    assert_eq!(
        linux_ssid(&None, &Some("Cafe\n".to_string()), &None),
        Some("Cafe".to_string())
    );
    assert_eq!(linux_ssid(&Some("   ".to_string()), &Some("Cafe".to_string()), &None), None);
}

#[test]
fn linux_ssid_unescapes_active_nmcli_entry() {
    let nmcli = "no:Neighbour\nyes:Lab\\:5G\\\\x\nyes:Second\n".to_string();
    assert_eq!(linux_ssid(&None, &None, &Some(nmcli)), Some("Lab:5G\\x".to_string()));
    assert_eq!(linux_ssid(&None, &None, &Some("no:Neighbour\n".to_string())), None);
}

#[test]
fn linux_context_names_interface_as_service() {
    let context = linux_network_context(
        Some("eth0".to_string()),
        vec!["1.1.1.1".to_string()],
        None,
    );
    assert_eq!(context.default_interface, Some("eth0".to_string()));
    assert_eq!(context.default_service, Some("eth0".to_string()));
    assert_eq!(context.dns_servers, vec!["1.1.1.1".to_string()]);
    assert_eq!(context.ssid, None);
}

#[test]
fn empty_context_holds_nothing() {
    let context = empty_network_context();
    assert_eq!(context.default_interface, None);
    assert_eq!(context.default_service, None);
    assert!(context.dns_servers.is_empty());
    assert_eq!(context.ssid, None);
}

#[test]
fn mac_primary_network_takes_first_named_state() {
    let states = vec![
        Some((Some(String::new()), None)),
        Some((Some("en0".to_string()), Some("ABC-123".to_string()))),
    ];
    assert_eq!(
        mac_primary_network(&states),
        (Some("en0".to_string()), Some("ABC-123".to_string()))
    );
    let ipv4_only = vec![Some((None, Some("SVC".to_string()))), None];
    assert_eq!(mac_primary_network(&ipv4_only), (None, Some("SVC".to_string())));
    assert_eq!(mac_primary_network(&vec![None, None]), (None, None));
}

#[test]
fn mac_dynamic_store_keys() {
    assert_eq!(service_setup_key("ABC"), "Setup:/Network/Service/ABC");
    assert_eq!(service_dns_key("ABC"), "State:/Network/Service/ABC/DNS");
    assert_eq!(airport_key("en0"), "State:/Network/Interface/en0/AirPort");
}

fn adapters() -> Vec<AdapterRecord> {
    vec![
        AdapterRecord {
            if_index: 4,
            ipv6_if_index: 9,
            friendly_name: Some("Ethernet".to_string()),
            dns_servers: vec!["8.8.8.8".to_string(), "1.1.1.1".to_string(), "8.8.8.8".to_string()],
        },
        AdapterRecord {
            if_index: 7,
            ipv6_if_index: 4,
            friendly_name: Some(String::new()),
            dns_servers: vec!["fe80::1".to_string()],
        },
    ]
}

#[test]
fn windows_ip_configuration_matches_route_family() {
    assert_eq!(
        windows_ip_configuration(Some((4, false)), &adapters()),
        (
            Some("Ethernet".to_string()),
            vec!["1.1.1.1".to_string(), "8.8.8.8".to_string()]
        )
    );
    assert_eq!(
        windows_ip_configuration(Some((4, true)), &adapters()),
        (None, vec!["fe80::1".to_string()])
    );
    assert_eq!(windows_ip_configuration(Some((12, false)), &adapters()), (None, vec![]));
    assert_eq!(windows_ip_configuration(None, &adapters()), (None, vec![]));
}

#[test]
fn windows_ssid_reads_reported_length() {
    let records = vec![
        WlanInterfaceRecord { connected: false, ssid: Some((b"Ignored".to_vec(), 7)) },
        WlanInterfaceRecord { connected: true, ssid: None },
        WlanInterfaceRecord { connected: true, ssid: Some((b"Office\0\0\0".to_vec(), 6)) },
    ];
    assert_eq!(windows_ssid(&records), Some("Office".to_string()));
    let blank = vec![WlanInterfaceRecord { connected: true, ssid: Some((b"  ".to_vec(), 40)) }];
    assert_eq!(windows_ssid(&blank), None);
}

#[test]
fn windows_context_has_no_service() {
    let wlan = vec![WlanInterfaceRecord { connected: true, ssid: Some((b"Home".to_vec(), 4)) }];
    let context = windows_network_context(Some((4, false)), &adapters(), &wlan);
    assert_eq!(context.default_interface, Some("Ethernet".to_string()));
    assert_eq!(context.default_service, None);
    assert_eq!(context.dns_servers, vec!["1.1.1.1".to_string(), "8.8.8.8".to_string()]);
    assert_eq!(context.ssid, Some("Home".to_string()));
}

#[test]
fn network_context_from_linux_facts() {
    let facts = NetworkFacts::Linux {
        routes: Some(ROUTES.to_string()),
        resolved: vec!["192.168.0.1".to_string()],
        resolved_is_address: vec![true],
        resolv_conf: None,
        system_iwgetid: None,
        path_iwgetid: Some("Home\n".to_string()),
        nmcli: None,
    };
    let context = get_network_context(&facts);
    assert_eq!(context.default_interface, Some("wlp2s0".to_string()));
    assert_eq!(context.default_service, Some("wlp2s0".to_string()));
    assert_eq!(context.dns_servers, vec!["192.168.0.1".to_string()]);
    assert_eq!(context.ssid, Some("Home".to_string()));
}

#[test]
fn network_context_from_macos_facts() {
    let facts = NetworkFacts::Macos {
        interface: Some("en0".to_string()),
        service_name: Some(String::new()),
        dns_values: vec!["9.9.9.9".to_string(), "bogus".to_string(), "1.1.1.1".to_string()],
        dns_is_address: vec![true, false, true],
        ssid: Some("Cafe".to_string()),
    };
    let context = get_network_context(&facts);
    assert_eq!(context.default_interface, Some("en0".to_string()));
    assert_eq!(context.default_service, None);
    assert_eq!(context.dns_servers, vec!["1.1.1.1".to_string(), "9.9.9.9".to_string()]);
    assert_eq!(context.ssid, Some("Cafe".to_string()));
    let none = get_network_context(&NetworkFacts::Unavailable);
    assert_eq!(none.default_interface, None);
    assert!(none.dns_servers.is_empty());
}
