use launchd::{
    CalendarInterval, Dict, Error, KeepAliveOptions, KeepAliveType, Launchd, PlistValue,
    ProcessType, ResourceLimits, Socket, SocketOptions, Sockets,
};

#[test]
fn document_round_trip_keeps_every_set_field() {
    let ci = CalendarInterval::default()
        .with_hour(12)
        .unwrap()
        .with_minute(10)
        .unwrap()
        .with_weekday(7)
        .unwrap();
    let mut env: Dict<String> = Dict::new();
    env.insert("PATH".to_string(), "/bin".to_string());
    let mut path_state: Dict<bool> = Dict::new();
    path_state.insert("/tmp/ready".to_string(), true);
    let keep_alive = KeepAliveOptions::new()
        .with_successful_exit(false)
        .with_path_state(path_state);
    let original = Launchd::new("com.example.echo".to_string(), "./foo/bar.txt".to_string())
        .with_user_name("henk".to_string())
        .with_program_arguments(vec!["Hello".to_string(), "World!".to_string()])
        .with_start_calendar_intervals(vec![ci])
        .with_environment_variables(env)
        .with_keep_alive(KeepAliveType::Options(keep_alive))
        .with_soft_resource_limits(ResourceLimits::new().with_number_of_files(512))
        .with_process_type(ProcessType::Adaptive)
        .with_umask(0o22)
        .with_nice(-5)
        .with_inetd_compatibility(true)
        .disabled();
    let doc = original.to_document();
    let back = Launchd::from_document(&doc).expect("round trip failed");
    assert_eq!(back, original);
}

#[test]
fn unset_fields_stay_absent_after_round_trip() {
    let original = Launchd::new("bare".to_string(), "./run.sh".to_string());
    let back = Launchd::from_document(&original.to_document()).unwrap();
    assert_eq!(back.disabled, None);
    assert_eq!(back.sockets, None);
    assert_eq!(back.keep_alive, None);
    assert_eq!(back, original);
}

#[test]
fn unknown_top_level_key_is_rejected() {
    let doc = PlistValue::Dictionary(vec![
        ("Label".to_string(), PlistValue::Text("x".to_string())),
        ("BogusKey".to_string(), PlistValue::Boolean(true)),
    ]);
    match Launchd::from_document(&doc) {
        Err(Error::Schema(k)) => assert_eq!(k, "BogusKey"),
        other => panic!("expected a schema error, got {:?}", other),
    }
}

#[test]
fn missing_label_is_rejected() {
    let doc = PlistValue::Dictionary(vec![
        ("Disabled".to_string(), PlistValue::Boolean(true)),
    ]);
    match Launchd::from_document(&doc) {
        Err(Error::Schema(_)) => {}
        other => panic!("expected a schema error, got {:?}", other),
    }
}

#[test]
fn process_type_outside_the_closed_set_is_rejected() {
    let doc = PlistValue::Dictionary(vec![
        ("Label".to_string(), PlistValue::Text("x".to_string())),
        ("ProcessType".to_string(), PlistValue::Text("Sometimes".to_string())),
    ]);
    match Launchd::from_document(&doc) {
        Err(Error::EnumDeserialization(raw)) => assert_eq!(raw, "Sometimes"),
        other => panic!("expected an enum error, got {:?}", other),
    }
}

#[test]
fn with_socket_merges_two_records_into_a_list() {
    let first = Socket::new("listener".to_string(), SocketOptions::new());
    let l = Launchd::new("L".to_string(), "./run.sh".to_string()).with_socket(Sockets::from(first));
    match &l.sockets {
        Some(Sockets::Dictionary(_)) => {}
        other => panic!("expected the record stored directly, got {:?}", other),
    }
    let second = Socket::new("alternate".to_string(), SocketOptions::new());
    let l = l.with_socket(Sockets::from(second));
    match &l.sockets {
        Some(Sockets::Array(list)) => {
            assert_eq!(list.len(), 2);
            assert_eq!(
                *list,
                vec![
                    Socket::new("listener".to_string(), SocketOptions::new()).into_values(),
                    Socket::new("alternate".to_string(), SocketOptions::new()).into_values(),
                ]
            );
        }
        other => panic!("expected a two-element list, got {:?}", other),
    }
}

#[test]
fn error_descriptions_name_the_kind() {
    let e = CalendarInterval::default().with_minute(60).unwrap_err();
    assert_eq!(e.describe(), "calendar field value out of its inclusive range");
    assert_eq!(
        Error::EnumDeserialization("x".to_string()).describe(),
        "failed to deserialize an enumeration value"
    );
}
