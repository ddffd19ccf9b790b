use std::path::PathBuf;
use talpid_firewall::settings::{chosen_dir, create_and_return, default_dir_below, find_data_dir};
use talpid_firewall::settings::{get_default_settings_dir, get_settings_dir, settings_dir, Error};

fn bytes(text: &str) -> Vec<u8> {
    text.as_bytes().to_vec()
}

#[test]
fn default_dir_is_in_etc() {
    assert_eq!(
        get_default_settings_dir(&bytes("mullvad-vpn")).unwrap(),
        bytes("/etc/mullvad-vpn")
    );
}

#[test]
fn default_dir_joins_like_a_path() {
    for name in ["", "product", "a/b", "/absolute", "/"] {
        let expected = std::path::Path::new("/etc").join(name);
        assert_eq!(
            get_default_settings_dir(&bytes(name)).unwrap(),
            bytes(expected.to_str().unwrap())
        );
    }
}

#[test]
fn variable_takes_precedence() {
    let name = bytes("mullvad-vpn");
    assert_eq!(
        get_settings_dir(Some(bytes("/tmp/settings")), &name).unwrap(),
        bytes("/tmp/settings")
    );
    assert_eq!(get_settings_dir(Some(vec![0xff, 0xfe]), &name).unwrap(), vec![0xff, 0xfe]);
    assert_eq!(get_settings_dir(None, &name).unwrap(), bytes("/etc/mullvad-vpn"));
}

#[test]
fn settings_dir_is_returned_once_created() {
    let name = bytes("mullvad-vpn");
    assert_eq!(
        settings_dir(Some(bytes("/tmp/settings")), &name, Ok(())).unwrap(),
        bytes("/tmp/settings")
    );
    assert_eq!(settings_dir(None, &name, Ok(())).unwrap(), bytes("/etc/mullvad-vpn"));
}

#[test]
fn failure_to_create_is_reported() {
    let cause = std::io::Error::from_raw_os_error(13);
    match settings_dir(None, &bytes("mullvad-vpn"), Err(cause)) {
        Err(Error::CreateDirFailed(path, cause)) => {
            assert_eq!(path, bytes("/etc/mullvad-vpn"));
            assert_eq!(cause.raw_os_error(), Some(13));
        }
        other => panic!("unexpected: {:?}", other),
    }
}

#[test]
fn data_dir_must_exist() {
    assert_eq!(find_data_dir(Some(7)).unwrap(), 7);
    assert!(matches!(find_data_dir::<u8>(None), Err(Error::FindDirError)));
}

#[test]
fn product_name_is_joined_to_the_data_dir() {
    let join = |dir: PathBuf, name: &str| dir.join(name);
    let base = PathBuf::from("/home/user/data");
    assert_eq!(
        default_dir_below(Some(base.clone()), "Mullvad VPN", join).unwrap(),
        base.join("Mullvad VPN")
    );
    assert!(matches!(
        default_dir_below(None, "Mullvad VPN", join),
        Err(Error::FindDirError)
    ));
}

#[test]
fn variable_is_chosen_over_the_default() {
    assert_eq!(chosen_dir(Some(1), Ok(2)).unwrap(), 1);
    assert_eq!(chosen_dir(Some(1), Err(Error::FindDirError)).unwrap(), 1);
    assert_eq!(chosen_dir(None, Ok(2)).unwrap(), 2);
    assert!(matches!(chosen_dir::<u8>(None, Err(Error::FindDirError)), Err(Error::FindDirError)));
}

#[test]
fn directory_is_returned_once_created() {
    assert_eq!(create_and_return(5, Ok(())).unwrap(), 5);
    let cause = std::io::Error::from_raw_os_error(13);
    match create_and_return(5, Err(cause)) {
        Err(Error::CreateDirFailed(5, cause)) => assert_eq!(cause.raw_os_error(), Some(13)),
        other => panic!("unexpected: {:?}", other),
    }
}
