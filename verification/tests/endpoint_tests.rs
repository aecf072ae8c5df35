use wlcore::endpoint::socket_path;
use wlcore::error::Error;

#[test]
fn socket_path_joins_directory_and_name() {
    let dir = b"/run/user/1000".to_vec();
    let name = b"wayland-0".to_vec();
    assert_eq!(socket_path(Some(&dir), Some(&name)), Ok(b"/run/user/1000/wayland-0".to_vec()));
}

#[test]
fn socket_path_needs_both_parts() {
    let dir = b"/run/user/1000".to_vec();
    let name = b"wayland-0".to_vec();
    let empty: Vec<u8> = Vec::new();
    assert_eq!(socket_path(None, Some(&name)), Err(Error::ConnectionError));
    assert_eq!(socket_path(Some(&dir), None), Err(Error::ConnectionError));
    assert_eq!(socket_path(None, None), Err(Error::ConnectionError));
    assert_eq!(socket_path(Some(&empty), Some(&name)), Err(Error::ConnectionError));
    assert_eq!(socket_path(Some(&dir), Some(&empty)), Err(Error::ConnectionError));
}
