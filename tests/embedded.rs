use bevy_embasset::{EmbassetIo, NotFound, Step};

#[test]
fn load_path() {
    let mut embedded = EmbassetIo::<()>::new();
    embedded.add_embedded_asset("asset.png", &[1, 2, 3]);
    embedded.add_embedded_asset("other_asset.png", &[4, 5, 6]);

    assert!(embedded.load_embedded_path_sync("asset.png").is_ok());
    assert_eq!(embedded.load_embedded_path_sync("asset.png").unwrap(), [1, 2, 3]);
    assert_eq!(embedded.load_embedded_path_sync("other_asset.png").unwrap(), [4, 5, 6]);
    assert!(embedded.load_embedded_path_sync("asset").is_err());
    assert!(embedded.load_embedded_path_sync("other").is_err());
}

#[test]
fn is_directory() {
    let mut embedded = EmbassetIo::<()>::new();
    embedded.add_embedded_asset("asset.png", &[]);
    embedded.add_embedded_asset("directory/asset.png", &[]);

    assert_eq!(embedded.is_directory("asset.png"), Step::Done(false));
    assert_eq!(embedded.is_directory("asset"), Step::Done(false));
    assert_eq!(embedded.is_directory("directory"), Step::Done(true));
    assert_eq!(embedded.is_directory("directory/"), Step::Done(true));
    assert_eq!(embedded.is_directory("directory/asset"), Step::Done(false));
}

#[test]
fn read_directory() {
    let mut embedded = EmbassetIo::<()>::new();
    embedded.add_embedded_asset("asset.png", &[]);
    embedded.add_embedded_asset("directory/asset.png", &[]);
    embedded.add_embedded_asset("directory/asset2.png", &[]);

    assert!(matches!(embedded.read_directory("asset.png"), Step::Done(Err(_))));
    assert!(matches!(embedded.read_directory("directory"), Step::Done(Ok(_))));
    let mut list = match embedded.read_directory("directory") {
        Step::Done(Ok(list)) => list.iter().map(|p| p.to_string()).collect::<Vec<_>>(),
        _ => panic!("no listing"),
    };
    list.sort();
    assert_eq!(list, vec!["directory/asset.png", "directory/asset2.png"]);
}

#[test]
fn missing_asset_names_its_path() {
    let mut embedded = EmbassetIo::<()>::new();
    embedded.add_embedded_asset("asset.png", &[1]);
    assert_eq!(
        embedded.load_embedded_path_sync("nothing.png"),
        Err(NotFound { path: "nothing.png".to_string() })
    );
    assert_eq!(
        embedded.load_path::<()>("nothing.png"),
        Step::Done(Err(bevy_embasset::LoadError::NotFound(NotFound { path: "nothing.png".to_string() })))
    );
}

#[test]
fn embedded_load_without_handlers() {
    let mut embedded = EmbassetIo::<()>::new();
    embedded.add_embedded_asset("a/b.bin", &[7, 8]);
    assert_eq!(embedded.load_path::<()>("a/b.bin"), Step::Done(Ok(vec![7, 8])));
}

#[test]
fn registering_twice_keeps_latest() {
    let mut embedded = EmbassetIo::<()>::new();
    embedded.add_embedded_asset("asset.png", &[1, 2, 3]).add_embedded_asset("asset.png", &[4, 5]);
    assert_eq!(embedded.load_embedded_path_sync("asset.png").unwrap(), [4, 5]);
    embedded.add_embedded_asset("dir/x", &[]);
    match embedded.read_directory("") {
        Step::Done(Ok(list)) => assert_eq!(list, vec!["asset.png", "dir/x"]),
        _ => panic!("no listing"),
    }
}

#[test]
fn directory_scenario() {
    let mut embedded = EmbassetIo::<()>::new();
    embedded.add_embedded_asset("directory/asset.png", &[1, 2, 3]);
    embedded.add_embedded_asset("directory/asset2.png", &[4, 5, 6]);
    let mut list = match embedded.read_directory("directory") {
        Step::Done(Ok(list)) => list,
        _ => panic!("no listing"),
    };
    list.sort();
    assert_eq!(list, vec!["directory/asset.png", "directory/asset2.png"]);
    assert_eq!(embedded.load_path::<()>("directory/asset.png"), Step::Done(Ok(vec![1, 2, 3])));
    assert_eq!(embedded.is_directory("directory/"), Step::Done(true));
    assert_eq!(embedded.is_directory("directory/asset"), Step::Done(false));
}

#[test]
fn leaf_and_nested_directories() {
    let mut embedded = EmbassetIo::<()>::new();
    embedded.add_embedded_asset("a/b", &[]);
    embedded.add_embedded_asset("a/b/c", &[]);
    assert_eq!(embedded.is_directory("a/b"), Step::Done(true));
    assert_eq!(embedded.is_directory("a/b/c"), Step::Done(false));
    assert_eq!(embedded.is_directory("a"), Step::Done(true));
    assert_eq!(embedded.is_directory(""), Step::Done(true));
    assert_eq!(EmbassetIo::<()>::new().is_directory(""), Step::Done(false));
}

#[test]
fn read_directory_not_found_names_path() {
    let embedded = EmbassetIo::<()>::new();
    assert_eq!(
        embedded.read_directory("nowhere"),
        Step::Done(Err(NotFound { path: "nowhere".to_string() }))
    );
}

#[test]
fn default_is_empty() {
    let io: EmbassetIo<()> = Default::default();
    assert_eq!(io.handler_count(), 0);
    assert!(io.default_io().is_none());
    assert_eq!(io.is_directory(""), Step::Done(false));
}
