use udx710_backend::contexts::{apn_contexts, apn_property_writes, find_apn_context, find_internet_context, ContextEntry};
use udx710_backend::device::{is_placeholder, needs_real_identity, real_device_identity, resolve_device_identity};
use udx710_backend::location::PropValue;
use udx710_backend::models::SetApnRequest;

fn text(k: &str, v: &str) -> (String, PropValue) {
    (k.to_string(), PropValue::Str(v.to_string()))
}

fn entry(path: &str, props: Vec<(String, PropValue)>) -> ContextEntry {
    ContextEntry { path: path.to_string(), props }
}

#[test]
fn placeholders_are_empty_or_fake() {
    assert!(is_placeholder(""));
    assert!(is_placeholder("Fake Modem"));
    assert!(is_placeholder("my FAKE one"));
    assert!(!is_placeholder("UNISOC"));
    assert!(needs_real_identity("UNISOC", "fake"));
    assert!(!needs_real_identity("UNISOC", "UDX710"));
}

#[test]
fn identity_from_device_tree_model() {
    let r = real_device_identity(Some("Soyea UDX710\0"), Some("PRETTY_NAME=\"OpenWrt 22.03\"\n"));
    assert_eq!(r, Some(("Soyea".to_string(), "Soyea UDX710".to_string())));
}

#[test]
fn identity_falls_back_to_os_release() {
    let os = "NAME=\"OpenWrt\"\nPRETTY_NAME=\"Fake OS\"\nPRETTY_NAME=\"OpenWrt 22.03\"\n";
    let r = real_device_identity(Some("fake board\0"), Some(os));
    assert_eq!(r, Some(("Unknown".to_string(), "OpenWrt 22.03".to_string())));
    assert_eq!(real_device_identity(None, Some("ID=openwrt\n")), None);
    assert_eq!(real_device_identity(Some("  \0"), None), None);
}

#[test]
fn placeholders_are_replaced_by_the_system_identity() {
    let sys = Some(("Soyea".to_string(), "Soyea UDX710".to_string()));
    assert_eq!(
        resolve_device_identity("Fake".to_string(), "UDX710".to_string(), sys.clone()),
        ("Soyea".to_string(), "UDX710".to_string())
    );
    assert_eq!(
        resolve_device_identity("".to_string(), "".to_string(), sys),
        ("Soyea".to_string(), "Soyea UDX710".to_string())
    );
    assert_eq!(
        resolve_device_identity("Fake".to_string(), "x".to_string(), None),
        ("Fake".to_string(), "x".to_string())
    );
}

#[test]
fn internet_context_prefers_one_with_an_apn() {
    let cs = vec![
        entry("/ril_0/context1", vec![text("Type", "mms"), text("AccessPointName", "mms")]),
        entry("/ril_0/context2", vec![text("Type", "internet")]),
        entry("/ril_0/context3", vec![text("Type", "internet"), text("AccessPointName", "cmnet")]),
    ];
    assert_eq!(find_internet_context(&cs), "/ril_0/context3");
    let no_apn = vec![
        entry("/ril_0/context4", vec![text("Type", "ims")]),
        entry("/ril_0/context5", vec![text("Type", "internet"), text("AccessPointName", "")]),
    ];
    assert_eq!(find_internet_context(&no_apn), "/ril_0/context5");
    assert_eq!(find_internet_context(&vec![]), "/ril_0/context2");
}

#[test]
fn apn_list_has_the_internet_contexts_with_defaults() {
    let cs = vec![
        entry("/ril_0/context1", vec![text("Type", "mms")]),
        entry(
            "/ril_0/context2",
            vec![
                text("Type", "internet"),
                text("AccessPointName", "cmnet"),
                ("Active".to_string(), PropValue::Bool(true)),
            ],
        ),
    ];
    let list = apn_contexts(&cs);
    assert_eq!(list.len(), 1);
    let c = &list[0];
    assert_eq!(c.path, "/ril_0/context2");
    assert_eq!(c.name, "Internet");
    assert!(c.active);
    assert_eq!(c.apn, "cmnet");
    assert_eq!(c.protocol, "ip");
    assert_eq!(c.auth_method, "chap");
    assert_eq!(c.context_type, "internet");
    assert_eq!(find_apn_context(&list, "/ril_0/context2"), Some(0));
    assert_eq!(find_apn_context(&list, "/ril_0/context1"), None);
}

#[test]
fn apn_writes_in_order_and_context_required() {
    let req = SetApnRequest {
        context_path: "/ril_0/context2".to_string(),
        apn: Some("3gnet".to_string()),
        protocol: None,
        username: Some("u".to_string()),
        password: None,
        auth_method: Some("pap".to_string()),
    };
    let w = apn_property_writes(&req).unwrap();
    assert_eq!(
        w,
        vec![
            ("AccessPointName", "3gnet".to_string()),
            ("Username", "u".to_string()),
            ("AuthenticationMethod", "pap".to_string()),
        ]
    );
    let bad = SetApnRequest { context_path: String::new(), ..req };
    assert_eq!(apn_property_writes(&bad), Err("context_path is required".to_string()));
}
