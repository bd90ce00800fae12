use prellblock::peer::calculator::Calculator;
use prellblock::peer::frame::{frame_length, frame_message, read_frame, read_frame_length, FrameError};
use prellblock::peer::message::{handle_ping, Add, Ping, Pong, RequestData, Sub};

fn json_of_request(request: &RequestData) -> Vec<u8> {
    let mut object = serde_json::Map::new();
    match request {
        RequestData::Add(Add(a, b)) => {
            object.insert(
                "Add".to_string(),
                serde_json::Value::Array(vec![serde_json::Value::from(*a), serde_json::Value::from(*b)]),
            );
        }
        RequestData::Sub(Sub(a, b)) => {
            object.insert(
                "Sub".to_string(),
                serde_json::Value::Array(vec![serde_json::Value::from(*a), serde_json::Value::from(*b)]),
            );
        }
        RequestData::Ping(_) => {
            object.insert("Ping".to_string(), serde_json::Value::Null);
        }
    }
    serde_json::to_vec(&serde_json::Value::Object(object)).unwrap()
}

#[test]
fn test_send_request_encoding() {
    let request: RequestData = Ping.into();
    let data = json_of_request(&request);
    let write_buf = frame_message(&data).unwrap();
    assert_eq!(write_buf, b"\x0d\0\0\0{\"Ping\":null}".to_vec());

    let response = read_frame(b"\x0b\0\0\0{\"Ok\":null}").unwrap();
    let response: serde_json::Value = serde_json::from_slice(&response).unwrap();
    let object = response.as_object().unwrap();
    assert!(object.contains_key("Ok"));
    assert_eq!(object["Ok"], serde_json::Value::Null);
}

#[test]
fn frame_roundtrip() {
    let data = b"hello world".to_vec();
    let frame = frame_message(&data).unwrap();
    assert_eq!(&frame[..4], &[11, 0, 0, 0]);
    assert_eq!(read_frame(&frame).unwrap(), data);
}

#[test]
fn frame_of_empty_message() {
    let frame = frame_message(&[]).unwrap();
    assert_eq!(frame, vec![0, 0, 0, 0]);
    assert_eq!(read_frame(&frame).unwrap(), Vec::<u8>::new());
}

#[test]
fn frame_leaves_trailing_bytes() {
    let bytes = b"\x02\0\0\0abcdef";
    assert_eq!(read_frame(bytes).unwrap(), b"ab".to_vec());
}

#[test]
fn incomplete_frames_are_refused() {
    assert_eq!(read_frame(b"\x0b\0\0"), Err(FrameError::Incomplete));
    assert_eq!(read_frame(b"\x0b\0\0\0{\"Ok\""), Err(FrameError::Incomplete));
}

#[test]
fn frame_length_is_little_endian() {
    assert_eq!(frame_length(0x0102_0304), [4, 3, 2, 1]);
    assert_eq!(read_frame_length(&[4, 3, 2, 1]), 0x0102_0304);
    assert_eq!(read_frame_length(&frame_length(70000)), 70000);
}

#[test]
fn requests_convert_into_request_data() {
    let add: RequestData = Add(1, 2).into();
    assert_eq!(add, RequestData::Add(Add(1, 2)));
    let sub: RequestData = Sub(5, 3).into();
    assert_eq!(sub, RequestData::Sub(Sub(5, 3)));
    assert_eq!(json_of_request(&add), b"{\"Add\":[1,2]}".to_vec());
    assert_eq!(handle_ping(), Pong);
}

#[test]
fn calculator_remembers_last_result() {
    let mut calculator = Calculator::new();
    assert_eq!(calculator.last_result(), 0);
    assert_eq!(calculator.add(40, 2), 42);
    assert_eq!(calculator.last_result(), 42);
    assert_eq!(calculator.sub(10, 3), 7);
    assert_eq!(calculator.last_result(), 7);
    let default = Calculator::default();
    assert_eq!(default.last_result(), 0);
}
