use restricted_kernel::{
    default_channel, eq_ignore_case, priority_order, select_channel, ChannelError,
    ChannelFeatures, ChannelType,
};

const ALL: ChannelFeatures =
    ChannelFeatures { virtio_console: true, vsock: true, serial: true, simple_io: true };

#[test]
fn names_parse_in_any_case() {
    assert_eq!(ChannelType::parse("serial"), Some(ChannelType::Serial));
    assert_eq!(ChannelType::parse("SeRiAl"), Some(ChannelType::Serial));
    assert_eq!(ChannelType::parse("VIRTIO_CONSOLE"), Some(ChannelType::VirtioConsole));
    assert_eq!(ChannelType::parse("virtio_vsock"), Some(ChannelType::VirtioVsock));
    assert_eq!(ChannelType::parse("simple_io"), Some(ChannelType::SimpleIo));
    assert_eq!(ChannelType::parse("simpleio"), None);
    assert_eq!(ChannelType::parse(""), None);
    assert_eq!(ChannelType::Serial.name(), "serial");
    assert!(eq_ignore_case("Simple_IO", "simple_io"));
    assert!(!eq_ignore_case("serial", "serials"));
}

#[test]
fn default_is_first_in_priority_order() {
    assert_eq!(
        priority_order(),
        vec![
            ChannelType::VirtioConsole,
            ChannelType::VirtioVsock,
            ChannelType::Serial,
            ChannelType::SimpleIo
        ]
    );
    assert_eq!(select_channel(&ALL, None, true), Ok(ChannelType::VirtioConsole));
    let f = ChannelFeatures { virtio_console: false, vsock: false, serial: true, simple_io: true };
    assert_eq!(default_channel(&f), Some(ChannelType::Serial));
    assert_eq!(select_channel(&f, None, false), Ok(ChannelType::Serial));
}

#[test]
fn requested_serial_wins_over_priority() {
    assert_eq!(select_channel(&ALL, Some("serial"), true), Ok(ChannelType::Serial));
    assert_eq!(select_channel(&ALL, Some("Serial"), false), Ok(ChannelType::Serial));
}

#[test]
fn selection_is_deterministic() {
    let f = ChannelFeatures { virtio_console: false, vsock: true, serial: true, simple_io: false };
    for req in [None, Some("serial"), Some("SERIAL"), Some("bogus")] {
        assert_eq!(select_channel(&f, req, true), select_channel(&f, req, true));
    }
    assert_eq!(select_channel(&f, Some("SERIAL"), true), select_channel(&f, Some("serial"), true));
    assert_eq!(select_channel(&f, None, true), Ok(ChannelType::VirtioVsock));
}

#[test]
fn selection_errors() {
    let f = ChannelFeatures { virtio_console: true, vsock: false, serial: true, simple_io: false };
    assert_eq!(select_channel(&f, Some("tcp"), true), Err(ChannelError::UnknownKind));
    assert_eq!(
        select_channel(&f, Some("virtio_vsock"), true),
        Err(ChannelError::NotCompiledIn(ChannelType::VirtioVsock))
    );
    assert_eq!(select_channel(&f, None, false), Err(ChannelError::AcpiUnavailable));
    let none = ChannelFeatures { virtio_console: false, vsock: false, serial: false, simple_io: false };
    assert_eq!(select_channel(&none, None, true), Err(ChannelError::NoneCompiledIn));
}
