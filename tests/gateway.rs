use synology_filestation_fuse::station::{
    check_envelope, check_item_codes, decimal_string, first_file, memo_fresh, remote_error, should_memoize,
    transport_failure,
};
use synology_filestation_fuse::{
    FileAdditional, FileStation, FileStationItem, FsError, ListFilesResult, LoginResult, Perm, SynologyResult, Time,
};

fn logged_in() -> FileStation {
    let mut st = FileStation::new("nas.local", 5001, true, 5);
    let answer = SynologyResult { success: true, data: LoginResult { sid: "abc".to_string() } };
    assert_eq!(st.login(200, Some(answer)), Ok(()));
    st
}

#[test]
fn base_url_from_host_port_and_scheme() {
    assert_eq!(FileStation::new("nas.local", 5001, true, 5).base_url(), "https://nas.local:5001");
    assert_eq!(FileStation::new("10.0.0.2", 80, false, 5).base_url(), "http://10.0.0.2:80");
    assert_eq!(FileStation::new("h", 0, false, 5).base_url(), "http://h:0");
}

#[test]
fn decimal_digits() {
    assert_eq!(decimal_string(0), "0");
    assert_eq!(decimal_string(7), "7");
    assert_eq!(decimal_string(65535), "65535");
    assert_eq!(decimal_string(u64::MAX), "18446744073709551615");
}

#[test]
fn requests_without_session_are_unauthorized() {
    let st = FileStation::new("nas.local", 5001, true, 5);
    assert!(!st.has_session());
    assert_eq!(st.list_shares(), Err(FsError::Unauthorized));
    assert_eq!(st.list_files("/a"), Err(FsError::Unauthorized));
    assert_eq!(st.get_info_for_path("/a/b"), Err(FsError::Unauthorized));
}

#[test]
fn list_shares_url_is_encoded() {
    let st = logged_in();
    assert_eq!(
        st.list_shares().unwrap(),
        "https://nas.local:5001/webapi/entry.cgi?api=SYNO.FileStation.List&version=2&method=list_share&_sid=abc\
         &additional=%5B%22volume_status%22%2C%22time%22%2C%22perm%22%5D"
    );
}

#[test]
fn list_files_url_encodes_path() {
    let st = logged_in();
    assert_eq!(
        st.list_files("/shareA/my docs").unwrap(),
        "https://nas.local:5001/webapi/entry.cgi?api=SYNO.FileStation.List&version=2&method=list&_sid=abc\
         &folder_path=%2FshareA%2Fmy%20docs&additional=%5B%22size%22%2C%22time%22%2C%22perm%22%5D"
    );
}

#[test]
fn getinfo_url_joins_paths() {
    let st = logged_in();
    let url = st.get_info_for_paths(&vec!["/a/x".to_string(), "/a/y".to_string()]).unwrap();
    assert!(url.contains("&method=getinfo&"));
    assert!(url.contains("&path=%2Fa%2Fx%2C%2Fa%2Fy&"));
    let one = st.get_info_for_path("/a/x").unwrap();
    assert!(one.contains("&path=%2Fa%2Fx&"));
}

#[test]
fn request_url_appends_params_in_order() {
    let st = logged_in();
    let params = vec![("k1".to_string(), "v1".to_string()), ("k2".to_string(), "v2".to_string())];
    assert_eq!(
        st.request_url("API", 3, "m", &params).unwrap(),
        "https://nas.local:5001/webapi/entry.cgi?api=API&version=3&method=m&_sid=abc&k1=v1&k2=v2"
    );
}

#[test]
fn login_url_encodes_credentials() {
    let st = FileStation::new("nas.local", 5001, true, 5);
    assert_eq!(
        st.login_url("me", "p&w d"),
        "https://nas.local:5001/webapi/auth.cgi?api=SYNO.API.Auth&version=3&method=login&account=me\
         &passwd=p%26w%20d&session=FileStation&format=sid"
    );
}

#[test]
fn login_failures() {
    let mut st = FileStation::new("nas.local", 5001, true, 5);
    assert_eq!(st.login(500, None), Err(FsError::RemoteUnavailable(500)));
    assert_eq!(st.login(200, None), Err(FsError::ProtocolError));
    let refused = SynologyResult { success: false, data: LoginResult { sid: String::new() } };
    assert_eq!(st.login(200, Some(refused)), Err(FsError::Unauthorized));
    assert!(!st.has_session());
}

#[test]
fn logout_is_terminal() {
    let mut st = logged_in();
    let url = st.logout().unwrap();
    assert_eq!(
        url,
        "https://nas.local:5001/webapi/entry.cgi?api=SYNO.API.Auth&version=1&method=logout&_sid=abc&session=FileStation"
    );
    assert_eq!(st.list_shares(), Err(FsError::Unauthorized));
    assert_eq!(st.logout(), Err(FsError::Unauthorized));
}

#[test]
fn remote_codes_map_to_errors() {
    assert_eq!(remote_error(408), FsError::NotFound);
    assert_eq!(remote_error(119), FsError::Unauthorized);
    assert_eq!(remote_error(106), FsError::Unauthorized);
    assert_eq!(remote_error(400), FsError::Remote(400));
}

#[test]
fn envelope_classification() {
    assert_eq!(check_envelope(200, Some(true), None), Ok(()));
    assert_eq!(check_envelope(404, Some(true), None), Err(FsError::RemoteUnavailable(404)));
    assert_eq!(check_envelope(200, None, None), Err(FsError::ProtocolError));
    assert_eq!(check_envelope(200, Some(false), Some(408)), Err(FsError::NotFound));
    assert_eq!(check_envelope(200, Some(false), None), Err(FsError::ProtocolError));
}

#[test]
fn transport_failures() {
    assert_eq!(transport_failure(Some(502)), FsError::RemoteUnavailable(502));
    assert_eq!(transport_failure(None), FsError::RemoteUnavailable(0));
}

#[test]
fn item_codes_first_error_wins() {
    assert_eq!(check_item_codes(&vec![None, None]), Ok(()));
    assert_eq!(check_item_codes(&vec![None, Some(408), Some(400)]), Err(FsError::NotFound));
}

#[test]
fn first_file_of_answer() {
    let empty = ListFilesResult { offset: None, files: vec![], total: None };
    assert_eq!(first_file(&empty).err(), Some(FsError::ProtocolError));
    let item = FileStationItem {
        isdir: false,
        name: "a".to_string(),
        path: "/s/a".to_string(),
        additional: FileAdditional {
            size: 3,
            time: Time { atime: 1, mtime: 2, ctime: 3, crtime: 4 },
            perm: Perm { posix: 0o600 },
        },
    };
    let one = ListFilesResult { offset: None, files: vec![item], total: Some(1) };
    let f = first_file(&one).unwrap();
    assert_eq!(f.path, "/s/a");
    assert_eq!(f.additional.size, 3);
}

#[test]
fn memo_freshness() {
    assert!(memo_fresh(Some(4), 5));
    assert!(!memo_fresh(Some(5), 5));
    assert!(!memo_fresh(None, 5));
}

#[test]
fn gateway_memo_serves_until_expiry() {
    let mut st = logged_in();
    st.remember("u", 100, "body");
    assert_eq!(st.cached_answer("u", 104, true), Some("body".to_string()));
    assert_eq!(st.cached_answer("u", 104, false), None);
    assert_eq!(st.cached_answer("u", 104, true), Some("body".to_string()));
    assert_eq!(st.cached_answer("u", 105, true), None);
    assert_eq!(st.cached_answer("u", 101, true), None);
}

#[test]
fn download_url_encodes_path() {
    let st = logged_in();
    assert_eq!(
        st.download("/s/a b.txt").unwrap(),
        "https://nas.local:5001/webapi/entry.cgi?api=SYNO.FileStation.Download&version=2&method=download&_sid=abc\
         &path=%2Fs%2Fa%20b.txt&mode=download"
    );
}

#[test]
fn only_successful_memoizable_answers_are_remembered() {
    assert!(should_memoize(200, true));
    assert!(!should_memoize(200, false));
    assert!(!should_memoize(500, true));
}
