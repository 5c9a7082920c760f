use vareliox::search::{clean_search_url, decode_html, html_attribute, html_text, parse_web_search_results, scan_search_results};
use vareliox::vm::text_identifies_virtual_machine;
use vareliox::web::{finish_page, page_content_kind, page_target, page_text, public_ip, IpAddress};

#[test]
fn extracts_visible_text_without_scripts_or_styles() {
    assert_eq!(
        page_text("<style>hidden</style><h1>Hola</h1><script>execute()</script><p>Texto &amp; datos</p>"),
        "Hola Texto & datos"
    );
}

#[test]
fn excludes_local_services_and_mapped_addresses() {
    // 127.0.0.1, 10.0.0.1, 169.254.169.254, 100.64.0.1, ::1, ::ffff:127.0.0.1, fc00::1
    let local = [
        ("127.0.0.1", IpAddress::V4([127, 0, 0, 1])),
        ("10.0.0.1", IpAddress::V4([10, 0, 0, 1])),
        ("169.254.169.254", IpAddress::V4([169, 254, 169, 254])),
        ("100.64.0.1", IpAddress::V4([100, 64, 0, 1])),
        ("::1", IpAddress::V6([0, 0, 0, 0, 0, 0, 0, 1])),
        ("::ffff:127.0.0.1", IpAddress::V6([0, 0, 0, 0, 0, 0xffff, 0x7f00, 0x0001])),
        ("fc00::1", IpAddress::V6([0xfc00, 0, 0, 0, 0, 0, 0, 1])),
    ];
    for (ip, address) in local {
        assert!(!public_ip(address), "{ip}");
    }
    assert!(public_ip(IpAddress::V4([1, 1, 1, 1])));
}

#[test]
fn recognizes_common_virtual_machine_identifiers() {
    for identity in [
        "Oracle Corporation VirtualBox",
        "VMware, Inc.",
        "QEMU Standard PC (i440FX + PIIX, 1996)",
        "KVM",
        "Microsoft Corporation Virtual Machine",
    ] {
        assert!(text_identifies_virtual_machine(identity), "{identity}");
    }
}

#[test]
fn does_not_classify_common_physical_hardware_as_virtual() {
    for identity in ["Dell Inc. XPS 15", "ASUSTeK COMPUTER INC.", "Framework Laptop"] {
        assert!(!text_identifies_virtual_machine(identity), "{identity}");
    }
}

#[test]
fn web_results_keep_destination_urls_without_duckduckgo_redirects() {
    let html = r#"
          <a rel="nofollow" class="result__a" href="//duckduckgo.com/l/?uddg=https%3A%2F%2Fwww.rust-lang.org%2F">Rust</a>
          <a class="result__snippet">A programming language for everyone.</a>
        "#;
    let results = parse_web_search_results(html, 4);
    assert_eq!(results.len(), 1);
    assert_eq!(results[0].title, "Rust");
    assert_eq!(results[0].url, "https://www.rust-lang.org/");
    assert_eq!(results[0].snippet, "A programming language for everyone.");
}
