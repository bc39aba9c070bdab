use bevy_embasset::{AssetIoAlternative, EmbassetIo, Listing, LoadError, NotFound, Step};

fn ask(index: usize, path: &str) -> Step<Result<Vec<u8>, LoadError<&'static str>>> {
    Step::AskHandler { index, path: path.to_string() }
}

#[test]
fn fallback_handler_failure_loads_stripped_path() {
    let mut io = EmbassetIo::<u8>::new();
    io.add_handler(AssetIoAlternative::new("dummy://", 0, true));
    io.add_embedded_asset("dummy", &[9]);

    let first = io.load_path::<&'static str>("dummy://dummy");
    assert_eq!(first, ask(0, "dummy"));
    let next = io.load_after_handler(0, "dummy", Err("unreachable backend"));
    assert_eq!(next, Step::Done(Ok(vec![9])));
}

#[test]
fn fallback_does_not_look_up_prefixed_path() {
    let mut io = EmbassetIo::<u8>::new();
    io.add_handler(AssetIoAlternative::new("dummy://", 0, true));
    io.add_embedded_asset("dummy://dummy", &[1]);
    let next = io.load_after_handler(0, "dummy", Err("failed"));
    assert_eq!(
        next,
        Step::Done(Err(LoadError::NotFound(NotFound { path: "dummy".to_string() })))
    );
}

#[test]
fn handler_error_without_fallback_is_returned() {
    let mut io = EmbassetIo::<u8>::new();
    io.add_handler(AssetIoAlternative::new("net://", 0, false));
    io.add_embedded_asset("x", &[1]);
    assert_eq!(io.load_path::<&'static str>("net://x"), ask(0, "x"));
    assert_eq!(
        io.load_after_handler(0, "x", Err("timeout")),
        Step::Done(Err(LoadError::Backend("timeout")))
    );
    assert_eq!(io.load_after_handler::<&'static str>(0, "x", Ok(vec![5])), Step::Done(Ok(vec![5])));
}

#[test]
fn first_registered_handler_wins() {
    let mut io = EmbassetIo::<u8>::new();
    io.add_handler(AssetIoAlternative::new("a://", 1, false));
    io.add_handler(AssetIoAlternative::new("a://b/", 2, false));
    assert_eq!(io.load_path::<&'static str>("a://b/c"), ask(0, "b/c"));
    assert_eq!(*io.handler(0).asset_io(), 1);

    let mut io = EmbassetIo::<u8>::new();
    io.add_handler(AssetIoAlternative::new("a://b/", 2, false));
    io.add_handler(AssetIoAlternative::new("a://", 1, false));
    assert_eq!(io.load_path::<&'static str>("a://b/c"), ask(0, "c"));
    assert_eq!(io.load_path::<&'static str>("a://d"), ask(1, "d"));
}

#[test]
fn fallback_skips_handler_selection() {
    let mut io = EmbassetIo::<u8>::new();
    io.add_handler(AssetIoAlternative::new("dummy://", 1, true))
        .add_handler(AssetIoAlternative::new("d", 2, true));
    io.add_embedded_asset("dummy", &[9]);
    assert_eq!(io.load_path::<&'static str>("dummy://dummy"), ask(0, "dummy"));
    assert_eq!(io.load_after_handler(0, "dummy", Err("no")), Step::Done(Ok(vec![9])));

    let mut io = EmbassetIo::<u8>::new();
    io.add_handler(AssetIoAlternative::new("outer://", 1, true));
    io.add_handler(AssetIoAlternative::new("inner://", 2, true));
    assert_eq!(io.load_path::<&'static str>("outer://inner://x"), ask(0, "inner://x"));
    assert_eq!(
        io.load_after_handler(0, "inner://x", Err("no")),
        Step::Done(Err(LoadError::NotFound(NotFound { path: "inner://x".to_string() })))
    );
}

#[test]
fn fallback_goes_to_default_with_stripped_path() {
    let mut io = EmbassetIo::with_default_assetio(5u8);
    io.add_handler(AssetIoAlternative::new("pak://", 1, true));
    io.add_embedded_asset("pak://a", &[1]).add_embedded_asset("a", &[2]);
    assert_eq!(io.load_path::<&'static str>("pak://a"), ask(0, "a"));
    assert_eq!(
        io.load_after_handler(0, "a", Err("no")),
        Step::AskDefault { path: "a".to_string() }
    );
    assert_eq!(io.load_after_default("a", Err("no")), Ok(vec![2]));
}

#[test]
fn default_backend_then_embedded() {
    let mut io = EmbassetIo::with_default_assetio(5u8);
    io.add_embedded_asset("icon.png", &[3, 4]);
    assert_eq!(
        io.load_path::<&'static str>("icon.png"),
        Step::AskDefault { path: "icon.png".to_string() }
    );
    assert_eq!(io.load_after_default("icon.png", Err("no file")), Ok(vec![3, 4]));
    assert_eq!(io.load_after_default::<&'static str>("icon.png", Ok(vec![1])), Ok(vec![1]));
    assert_eq!(
        io.load_after_default("missing.png", Err("no file")),
        Err(LoadError::NotFound(NotFound { path: "missing.png".to_string() }))
    );
    assert_eq!(io.default_io(), Some(&5u8));
}

#[test]
fn default_backend_answers_directory_queries() {
    let mut io = EmbassetIo::with_default_assetio(5u8);
    io.add_embedded_asset("dir/a", &[]);
    assert_eq!(io.is_directory("dir"), Step::AskDefault { path: "dir".to_string() });
    assert_eq!(io.read_directory("dir"), Step::AskDefault { path: "dir".to_string() });
    match io.read_directory_after_default::<Vec<String>, ()>("dir", Err(())) {
        Ok(Listing::Embedded(v)) => assert_eq!(v, vec!["dir/a"]),
        _ => panic!("embedded listing expected"),
    }
    match io.read_directory_after_default::<Vec<String>, ()>("dir", Ok(vec!["dir/b".to_string()])) {
        Ok(Listing::Delegated(v)) => assert_eq!(v, vec!["dir/b".to_string()]),
        _ => panic!("delegated listing expected"),
    }
    assert!(io.read_directory_after_default::<Vec<String>, ()>("nope", Err(())).is_err());
}

#[test]
fn handler_directory_queries_strip_prefix() {
    let mut io = EmbassetIo::<u8>::new();
    io.add_handler(AssetIoAlternative::new("pak://", 0, false));
    assert_eq!(io.is_directory("pak://maps"), Step::AskHandler { index: 0, path: "maps".to_string() });
    assert_eq!(io.read_directory("pak://maps"), Step::AskHandler { index: 0, path: "maps".to_string() });
    assert_eq!(io.watch_path_for_changes("pak://maps"), Step::AskHandler { index: 0, path: "maps".to_string() });
}

#[test]
fn watching() {
    let io = EmbassetIo::<u8>::new();
    assert_eq!(io.watch_path_for_changes("x"), Step::Done(()));
    assert!(!io.watch_for_changes());
    let io = EmbassetIo::with_default_assetio(1u8);
    assert_eq!(io.watch_path_for_changes("x"), Step::AskDefault { path: "x".to_string() });
    assert!(io.watch_for_changes());
    assert_eq!(io.watch_after_backend(Err("unsupported")), Ok(()));
    assert_eq!(io.watch_after_backend::<&str>(Ok(())), Ok(()));
}

#[test]
fn handler_keeps_its_prefix() {
    let h = AssetIoAlternative::new("GameAssets://", 4u8, true);
    assert_eq!(h.path_start(), "GameAssets://");
    assert!(h.fallback_on_err());
    assert!(h.applies_to("GameAssets://icon.png"));
    assert!(!h.applies_to("GameAssets:/icon.png"));
    assert_eq!(h.relative_path("GameAssets://icon.png"), "icon.png");
    let mut io = EmbassetIo::<u8>::new();
    io.add_handler(h);
    assert_eq!(io.handler_count(), 1);
    assert_eq!(io.handler(0).path_start(), "GameAssets://");
}

#[test]
fn plugin_keeps_initializer() {
    let p = bevy_embasset::EmbassetPlugin::new(|io: &mut EmbassetIo<u8>| {
        io.add_embedded_asset("k", &[1]);
    });
    let mut io = EmbassetIo::<u8>::new();
    (p.initializer())(&mut io);
    assert_eq!(io.load_embedded_path_sync("k").unwrap(), [1]);
}
