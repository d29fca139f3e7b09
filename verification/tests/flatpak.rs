use fusebridge::flatpak::parse_app_id;

#[test]
fn extracts_app_id() {
    let content = "[Application]\nname=org.example.App\nruntime=runtime/x/y/z\n";
    assert_eq!(parse_app_id(content), Some("org.example.App".into()));
}

#[test]
fn ignores_name_outside_application_section() {
    let content = "[Context]\nname=evil\n[Application]\nname=org.real.App\n";
    assert_eq!(parse_app_id(content), Some("org.real.App".into()));
}

#[test]
fn none_when_missing() {
    assert_eq!(parse_app_id("[Instance]\nid=1\n"), None);
}

#[test]
fn runtime_shell_falls_back_to_runtime_name() {
    let content = "[Runtime]\nname=org.freedesktop.Platform\n[Instance]\ninstance-id=1\n";
    assert_eq!(
        parse_app_id(content),
        Some("org.freedesktop.Platform".into())
    );
}

#[test]
fn application_wins_over_runtime() {
    let content = "[Runtime]\nname=org.fd.Platform\n[Application]\nname=org.real.App\n";
    assert_eq!(parse_app_id(content), Some("org.real.App".into()));
}

#[test]
fn spaces_and_order_do_not_hide_a_name() {
    let content = " [Application] \r\n\t name= org.a \nname=org.b\n[Runtime]\nname=org.c\n";
    assert_eq!(parse_app_id(content), Some("org.a".into()));
    let content = "name=early\n[Runtime]\nname=one\n[Other]\nname=x\n[Runtime]\nname=two";
    assert_eq!(parse_app_id(content), Some("two".into()));
}
