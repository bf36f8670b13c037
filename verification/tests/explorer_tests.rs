use contextpad::explorer::explorer_command;
use contextpad::explorer::HostOs;

#[test]
fn each_platform_has_its_launcher() {
    assert_eq!(explorer_command(HostOs::Windows), "explorer");
    assert_eq!(explorer_command(HostOs::MacOs), "open");
    assert_eq!(explorer_command(HostOs::Linux), "xdg-open");
}
