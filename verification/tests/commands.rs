use servoctl::batch::{plan_read_batch, plan_set_batch, ParameterRow};
use servoctl::dispatch::{dispatch_single, Action, Command, DEFAULT_DELAY_MS};
use servoctl::errors::CliError;
use servoctl::exchange::{extract_reply, KeyValueObservation, ReadOutcome};
use servoctl::kinds::DataType;
use servoctl::value::TypedValue;

fn row(p: &str, t: &str, v: &str) -> ParameterRow {
    ParameterRow {
        parameter: String::from(p),
        datatype: String::from(t),
        value: String::from(v),
    }
}

#[test]
fn start_without_destination_broadcasts_once() {
    let acts = dispatch_single(Command::Start, None, None, None, None, DEFAULT_DELAY_MS).unwrap();
    assert_eq!(acts.len(), 1);
    assert!(matches!(acts[0], Action::EnableAll));
    let acts = dispatch_single(Command::Stop, None, None, None, None, DEFAULT_DELAY_MS).unwrap();
    assert_eq!(acts.len(), 1);
    assert!(matches!(acts[0], Action::DisableAll));
}

#[test]
fn start_with_destination_is_unicast() {
    let acts =
        dispatch_single(Command::Start, Some(9), None, None, None, DEFAULT_DELAY_MS).unwrap();
    assert_eq!(acts.len(), 1);
    assert!(matches!(acts[0], Action::Enable { node: 9 }));
    // Extraneous arguments are ignored, not rejected.
    let acts = dispatch_single(
        Command::Stop,
        Some(9),
        Some("gain"),
        Some("1"),
        Some(DataType::U8),
        DEFAULT_DELAY_MS,
    )
    .unwrap();
    assert!(matches!(acts[0], Action::Disable { node: 9 }));
}

#[test]
fn response_sends_unicast_float_vector() {
    let acts = dispatch_single(
        Command::Response,
        Some(7),
        Some("gain"),
        Some("[1.5, -2.25]"),
        Some(DataType::F32),
        DEFAULT_DELAY_MS,
    )
    .unwrap();
    assert_eq!(acts.len(), 1);
    match &acts[0] {
        Action::SendResponse { dest, key, value } => {
            assert_eq!(*dest, 7);
            assert_eq!(key.as_str(), "gain");
            match value {
                TypedValue::F32(lits) => {
                    let floats: Vec<f32> =
                        lits.iter().map(|l| l.parse::<f32>().unwrap()).collect();
                    assert_eq!(floats, vec![1.5f32, -2.25f32]);
                }
                _ => panic!("wrong kind"),
            }
        }
        _ => panic!("wrong action"),
    }
}

#[test]
fn malformed_value_never_reaches_the_transport() {
    let r = dispatch_single(
        Command::Response,
        Some(7),
        Some("gain"),
        Some("[1,2"),
        Some(DataType::U8),
        DEFAULT_DELAY_MS,
    );
    assert_eq!(r.unwrap_err(), CliError::MalformedValue);
}

#[test]
fn missing_arguments_fail_fast() {
    let r = dispatch_single(Command::Request, None, Some("k"), None, None, DEFAULT_DELAY_MS);
    assert_eq!(r.unwrap_err(), CliError::MissingArgument);
    let r = dispatch_single(Command::Request, Some(1), None, None, None, DEFAULT_DELAY_MS);
    assert_eq!(r.unwrap_err(), CliError::MissingArgument);
    let r = dispatch_single(
        Command::Message,
        None,
        Some("k"),
        None,
        Some(DataType::U8),
        DEFAULT_DELAY_MS,
    );
    assert_eq!(r.unwrap_err(), CliError::MissingArgument);
    let r = dispatch_single(
        Command::Response,
        Some(1),
        Some("k"),
        Some("1"),
        None,
        DEFAULT_DELAY_MS,
    );
    assert_eq!(r.unwrap_err(), CliError::MissingArgument);
}

#[test]
fn request_plans_the_single_shot_exchange() {
    let acts =
        dispatch_single(Command::Request, Some(3), Some("pos"), None, None, 100).unwrap();
    assert_eq!(acts.len(), 4);
    assert!(matches!(&acts[0], Action::SendRequest { dest: 3, key } if key.as_str() == "pos"));
    assert!(matches!(acts[1], Action::Wait { millis: 100 }));
    assert!(matches!(acts[2], Action::Pump));
    assert!(matches!(acts[3], Action::TakeObservations));
}

#[test]
fn message_publishes_parsed_value() {
    let acts = dispatch_single(
        Command::Message,
        None,
        Some("mode"),
        Some("3"),
        Some(DataType::U8),
        DEFAULT_DELAY_MS,
    )
    .unwrap();
    assert_eq!(acts.len(), 1);
    match &acts[0] {
        Action::Publish { key, value } => {
            assert_eq!(key.as_str(), "mode");
            assert_eq!(*value, TypedValue::U8(vec![3]));
        }
        _ => panic!("wrong action"),
    }
}

#[test]
fn no_reply_is_explicit_no_data() {
    let r = extract_reply("gain", None);
    assert!(matches!(r, ReadOutcome::NoData));
    // Replies for other keys only: still the explicit no-data outcome.
    let other = vec![KeyValueObservation {
        key: String::from("speed"),
        data: TypedValue::U8(vec![1]),
    }];
    assert!(matches!(extract_reply("gain", Some(other)), ReadOutcome::NoData));
}

#[test]
fn matching_replies_come_back_in_order() {
    let obs = vec![
        KeyValueObservation { key: String::from("gain"), data: TypedValue::U8(vec![1]) },
        KeyValueObservation { key: String::from("speed"), data: TypedValue::U8(vec![2]) },
        KeyValueObservation { key: String::from("gain"), data: TypedValue::U8(vec![3]) },
    ];
    match extract_reply("gain", Some(obs)) {
        ReadOutcome::Data(d) => {
            assert_eq!(d.len(), 2);
            assert_eq!(d[0].data, TypedValue::U8(vec![1]));
            assert_eq!(d[1].data, TypedValue::U8(vec![3]));
        }
        ReadOutcome::NoData => panic!("expected data"),
    }
}

#[test]
fn batch_aborts_at_second_of_three_rows() {
    let rows = vec![
        row("p1", "u8", "1"),
        row("p2", "u8", "[2,"),
        row("p3", "u8", "3"),
    ];
    let (acts, err) = plan_set_batch(5, &rows, DEFAULT_DELAY_MS);
    // Row 1 was planned, row 2 aborts with its 1-based index, row 3 never.
    assert_eq!(err, Some(2));
    assert_eq!(acts.len(), 2);
    assert!(
        matches!(&acts[0], Action::SendResponse { dest: 5, key, value }
            if key.as_str() == "p1" && *value == TypedValue::U8(vec![1]))
    );
    assert!(matches!(acts[1], Action::Wait { millis: DEFAULT_DELAY_MS }));
}

#[test]
fn batch_with_bad_declared_type_aborts() {
    let rows = vec![row("p1", "u9", "1")];
    let (acts, err) = plan_set_batch(5, &rows, DEFAULT_DELAY_MS);
    assert_eq!(err, Some(1));
    assert_eq!(acts.len(), 0);
}

#[test]
fn clean_batch_plans_every_row_in_order() {
    let rows = vec![
        row("a", "bool", "true"),
        row("b", " u8 ", "[1,2,3]"),
        row("c", "string", "hello"),
    ];
    let (acts, err) = plan_set_batch(2, &rows, DEFAULT_DELAY_MS);
    assert_eq!(err, None);
    assert_eq!(acts.len(), 6);
    assert!(matches!(&acts[0], Action::SendResponse { key, .. } if key.as_str() == "a"));
    assert!(matches!(&acts[2], Action::SendResponse { key, .. } if key.as_str() == "b"));
    assert!(matches!(&acts[4], Action::SendResponse { key, .. } if key.as_str() == "c"));
}

#[test]
fn read_batch_plans_one_exchange_per_key() {
    let keys = vec![String::from("x"), String::from("y")];
    let acts = plan_read_batch(4, &keys, 100);
    assert_eq!(acts.len(), 8);
    assert!(matches!(&acts[0], Action::SendRequest { dest: 4, key } if key.as_str() == "x"));
    assert!(matches!(&acts[4], Action::SendRequest { dest: 4, key } if key.as_str() == "y"));
    assert!(matches!(acts[5], Action::Wait { millis: 100 }));
}
