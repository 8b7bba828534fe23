use stream_decoder::log_types::ApplicationId;
use stream_decoder::log_types::BlueprintActivationCommand;
use stream_decoder::log_types::FileSource;
use stream_decoder::log_types::LogMsg;
use stream_decoder::log_types::PythonVersion;
use stream_decoder::log_types::SetStoreInfo;
use stream_decoder::log_types::StoreId;
use stream_decoder::log_types::StoreInfo;
use stream_decoder::log_types::StoreKind;
use stream_decoder::log_types::StoreSource;
use stream_decoder::log_types::TableId;
use stream_decoder::log_types::Tuid;
use stream_decoder::python_version::PythonVersionParseError;
use stream_decoder::time::build_frame_nr;
use stream_decoder::time::build_log_time;
use stream_decoder::time::TimeType;
use stream_decoder::time::Timestamp;

#[test]
fn parse_python_version() {
    fn assert_parse_err(input: &str, check: fn(&PythonVersionParseError) -> bool, expected: &str) {
        let actual = input.parse::<PythonVersion>();
        match &actual {
            Err(e) if check(e) => {}
            _ => panic!("actual: {actual:?}, expected: {expected}"),
        }
    }

    fn assert_parse_ok(input: &str, expected: PythonVersion) {
        let actual = input.parse::<PythonVersion>().expect("failed to parse");
        assert_eq!(actual, expected);
    }

    assert_parse_err(
        "",
        |e| matches!(e, PythonVersionParseError::MissingMajor),
        "MissingMajor",
    );
    assert_parse_err(
        "3",
        |e| matches!(e, PythonVersionParseError::MissingMinor),
        "MissingMinor",
    );
    assert_parse_err(
        "3.",
        |e| matches!(e, PythonVersionParseError::MissingMinor),
        "MissingMinor",
    );
    assert_parse_err(
        "3.11",
        |e| matches!(e, PythonVersionParseError::MissingPatch),
        "MissingPatch",
    );
    assert_parse_err(
        "3.11.",
        |e| matches!(e, PythonVersionParseError::MissingPatch),
        "MissingPatch",
    );
    assert_parse_err(
        "a.11.0",
        |e| matches!(e, PythonVersionParseError::InvalidMajor(_)),
        "InvalidMajor(_)",
    );
    assert_parse_err(
        "3.b.0",
        |e| matches!(e, PythonVersionParseError::InvalidMinor(_)),
        "InvalidMinor(_)",
    );
    assert_parse_err(
        "3.11.c",
        |e| matches!(e, PythonVersionParseError::InvalidPatch(_)),
        "InvalidPatch(_)",
    );
    assert_parse_ok(
        "3.11.0",
        PythonVersion {
            major: 3,
            minor: 11,
            patch: 0,
            suffix: String::new(),
        },
    );
    assert_parse_ok(
        "3.11.0a1",
        PythonVersion {
            major: 3,
            minor: 11,
            patch: 0,
            suffix: "a1".to_owned(),
        },
    );
}

#[test]
fn parse_python_version_overflow() {
    let actual = "3.999.0".parse::<PythonVersion>();
    assert!(matches!(
        actual,
        Err(PythonVersionParseError::InvalidMinor(
            stream_decoder::python_version::IntParseError::Overflow
        ))
    ));
}

#[test]
fn store_id_strings() {
    let id = StoreId::from_string(StoreKind::Recording, "test".to_owned());
    assert_eq!("test", id.as_str());
    assert!(!id.is_empty_recording());

    let empty = StoreId::empty_recording();
    assert_eq!("<EMPTY>", empty.as_str());
    assert!(empty.is_empty_recording());

    let blueprint = StoreId::from_string(StoreKind::Blueprint, "<EMPTY>".to_owned());
    assert!(!blueprint.is_empty_recording());
}

#[test]
fn store_id_random_is_simple_hex() {
    let id = StoreId::random(StoreKind::Recording);
    assert_eq!(32, id.as_str().len());
    assert!(id.as_str().chars().all(|c| c.is_ascii_hexdigit() && !c.is_uppercase()));

    let from_uuid = StoreId::from_uuid(StoreKind::Blueprint, uuid::Uuid::new_v4());
    assert_eq!(StoreKind::Blueprint, from_uuid.kind);
    assert_eq!(32, from_uuid.as_str().len());
}

#[test]
fn application_id_strings() {
    assert_eq!("unknown_app_id", ApplicationId::unknown().as_str());

    let random = ApplicationId::random();
    assert_eq!(36, random.as_str().len());
    assert!(random.as_str().starts_with("app_"));
}

#[test]
fn table_id_strings() {
    let id = TableId::new("my_table".to_owned());
    assert_eq!("my_table", id.as_str());
}

#[test]
fn blueprint_activation_commands() {
    let id = StoreId::from_string(StoreKind::Blueprint, "bp".to_owned());

    let default = BlueprintActivationCommand::make_default(id.clone());
    assert_eq!(id, default.blueprint_id);
    assert!(!default.make_active);
    assert!(default.make_default);

    let active = BlueprintActivationCommand::make_active(id.clone());
    assert_eq!(id, active.blueprint_id);
    assert!(active.make_active);
    assert!(active.make_default);
}

fn sample_info(app: &str, store: &str) -> StoreInfo {
    StoreInfo {
        application_id: ApplicationId(app.to_owned()),
        store_id: StoreId::from_string(StoreKind::Recording, store.to_owned()),
        cloned_from: None,
        store_source: StoreSource::Unknown,
        store_version: None,
    }
}

#[test]
fn app_default_blueprint_compares_ids() {
    assert!(sample_info("same", "same").is_app_default_blueprint());
    assert!(!sample_info("app", "store").is_app_default_blueprint());
}

#[test]
fn log_msg_store_id_access() {
    let id = StoreId::from_string(StoreKind::Recording, "a".to_owned());
    let other = StoreId::from_string(StoreKind::Recording, "b".to_owned());

    let mut msg = LogMsg::SetStoreInfo(SetStoreInfo {
        row_id: Tuid { time_ns: 1, inc: 2 },
        info: sample_info("app", "a"),
    });
    assert_eq!(&id, msg.store_id());
    msg.set_store_id(other.clone());
    assert_eq!(&other, msg.store_id());

    let mut cmd = LogMsg::BlueprintActivationCommand(BlueprintActivationCommand::make_default(
        id.clone(),
    ));
    assert_eq!(&id, cmd.store_id());
    cmd.set_store_id(other.clone());
    assert_eq!(&other, cmd.store_id());
}

#[test]
fn arrow_record_batch_access() {
    let id = StoreId::from_string(StoreKind::Recording, "a".to_owned());
    let mut msg = LogMsg::ArrowMsg(
        id,
        stream_decoder::log_types::ArrowMsg {
            chunk_id: Tuid { time_ns: 0, inc: 1 },
            batch: vec![1, 2, 3],
        },
    );
    {
        let batch = msg.arrow_record_batch_mut().expect("a record-batch message");
        assert_eq!(&vec![1, 2, 3], batch);
        batch.push(4);
    }
    match &msg {
        LogMsg::ArrowMsg(_, arrow) => assert_eq!(vec![1, 2, 3, 4], arrow.batch),
        other => panic!("expected a record-batch message, got {other:?}"),
    }

    let mut info_msg = LogMsg::SetStoreInfo(SetStoreInfo {
        row_id: Tuid { time_ns: 0, inc: 0 },
        info: sample_info("app", "store"),
    });
    assert!(info_msg.arrow_record_batch_mut().is_none());
}

#[test]
fn file_source_recommendations() {
    let app = ApplicationId("app".to_owned());
    let rec = StoreId::from_string(StoreKind::Recording, "rec".to_owned());

    let source = FileSource::DragAndDrop {
        recommended_application_id: Some(app.clone()),
        recommended_recording_id: Some(rec.clone()),
        force_store_info: true,
    };
    assert_eq!(Some(&app), source.recommended_application_id());
    assert_eq!(Some(&rec), source.recommended_recording_id());
    assert!(source.force_store_info());

    let cli = FileSource::Cli;
    assert_eq!(None, cli.recommended_application_id());
    assert_eq!(None, cli.recommended_recording_id());
    assert!(!cli.force_store_info());
}

#[test]
fn build_time_points() {
    let (timeline, time) = build_log_time(Timestamp::from_nanos_since_epoch(123));
    assert_eq!("log_time", timeline.name());
    assert_eq!(TimeType::Timestamp, timeline.typ());
    assert_eq!(123, time.as_i64());

    let (timeline, frame) = build_frame_nr(17);
    assert_eq!("frame_nr", timeline.name());
    assert_eq!(TimeType::Sequence, timeline.typ());
    assert_eq!(17, frame.as_i64());

    // the reserved sentinel saturates to one past itself
    let (_, clamped) = build_frame_nr(i64::MIN);
    assert_eq!(i64::MIN + 1, clamped.as_i64());
}
