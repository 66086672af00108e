use codex_tui::v8_init::{
    ensure_v8_initialized, initialize_v8, initialize_v8_with_mode, v8_thread_pool_size_from_env,
    V8Initialization, V8InitializationCell, V8JitMode,
};
use std::cell::RefCell;

#[test]
fn v8_thread_pool_size_defaults_to_platform_value() {
    assert_eq!(v8_thread_pool_size_from_env(None).expect("unset value"), 0);
}

#[test]
fn v8_thread_pool_size_accepts_positive_integer() {
    assert_eq!(
        v8_thread_pool_size_from_env(Some("8")).expect("positive value"),
        8
    );
}

#[test]
fn v8_thread_pool_size_rejects_zero_and_invalid_values() {
    assert!(v8_thread_pool_size_from_env(Some("0")).is_err());
    assert!(v8_thread_pool_size_from_env(Some("many")).is_err());
}

#[test]
fn worker_limits_are_read_like_other_numbers() {
    assert_eq!(v8_thread_pool_size_from_env(Some("+8")), Ok(8));
    assert_eq!(v8_thread_pool_size_from_env(Some("008")), Ok(8));
    assert_eq!(
        v8_thread_pool_size_from_env(Some("4294967295")),
        Ok(u32::MAX)
    );
    for bad in ["", "+", "-1", " 8", "8 ", "4294967296", "8.0"] {
        assert_eq!(
            v8_thread_pool_size_from_env(Some(bad)),
            Err("TOKIO_WORKER_THREADS must be a positive integer".to_string()),
            "{bad:?}"
        );
        assert!(bad.parse::<u32>().is_err());
    }
}

fn start(mode: V8JitMode) -> Result<V8Initialization, String> {
    Ok(V8Initialization { jit_mode: mode })
}

fn must_not_start(_mode: V8JitMode) -> Result<V8Initialization, String> {
    panic!("V8 must not be started twice")
}

#[test]
fn the_first_mode_stays() {
    let mut cell = V8InitializationCell::new();
    assert_eq!(initialize_v8(&mut cell, V8JitMode::Disabled, start), Ok(()));
    assert_eq!(
        initialize_v8(&mut cell, V8JitMode::Disabled, must_not_start),
        Ok(())
    );
    assert_eq!(
        initialize_v8(&mut cell, V8JitMode::Enabled, must_not_start),
        Err("V8 was already initialized with JIT disabled".to_string())
    );
    assert_eq!(ensure_v8_initialized(&mut cell, must_not_start), Ok(()));
}

#[test]
fn the_default_mode_is_enabled() {
    assert_eq!(V8JitMode::default(), V8JitMode::Enabled);
    let mut cell = V8InitializationCell::new();
    assert_eq!(ensure_v8_initialized(&mut cell, start), Ok(()));
    assert_eq!(
        initialize_v8(&mut cell, V8JitMode::Disabled, must_not_start),
        Err("V8 was already initialized with JIT enabled".to_string())
    );
}

#[test]
fn a_failed_start_is_not_tried_again() {
    let mut cell = V8InitializationCell::new();
    assert_eq!(
        initialize_v8(&mut cell, V8JitMode::Enabled, |_| Err("broken".to_string())),
        Err("broken".to_string())
    );
    assert_eq!(
        initialize_v8(&mut cell, V8JitMode::Disabled, must_not_start),
        Err("broken".to_string())
    );
    assert_eq!(
        ensure_v8_initialized(&mut cell, must_not_start),
        Err("broken".to_string())
    );
}

#[test]
fn starting_sets_the_flag_and_the_pool_size() {
    let mut flags: Vec<String> = Vec::new();
    let mut sizes: Vec<u32> = Vec::new();
    let outcome = initialize_v8_with_mode(
        V8JitMode::Disabled,
        Some("3"),
        || Ok(()),
        |flag| flags.push(flag.to_string()),
        |size| sizes.push(size),
    );
    assert_eq!(
        outcome,
        Ok(V8Initialization {
            jit_mode: V8JitMode::Disabled
        })
    );
    assert_eq!(flags, vec!["--jitless".to_string()]);
    assert_eq!(sizes, vec![3]);
}

#[test]
fn starting_with_jit_sets_no_flag() {
    let mut flags: Vec<String> = Vec::new();
    let outcome = initialize_v8_with_mode(
        V8JitMode::Enabled,
        None,
        || Ok(()),
        |flag| flags.push(flag.to_string()),
        |size| assert_eq!(size, 0),
    );
    assert!(outcome.is_ok());
    assert!(flags.is_empty());
}

#[test]
fn bad_icu_data_and_bad_limits_stop_the_start() {
    assert_eq!(
        initialize_v8_with_mode(
            V8JitMode::Enabled,
            Some("many"),
            || Err(-7),
            |_| panic!("no flag"),
            |_| panic!("no platform"),
        ),
        Err("failed to initialize ICU data: -7".to_string())
    );
    assert_eq!(
        initialize_v8_with_mode(
            V8JitMode::Enabled,
            Some("many"),
            || Ok(()),
            |_| panic!("no flag"),
            |_| panic!("no platform"),
        ),
        Err("TOKIO_WORKER_THREADS must be a positive integer".to_string())
    );
}

#[test]
fn data_flag_and_platform_come_in_order() {
    let order = RefCell::new(Vec::new());
    let outcome = initialize_v8_with_mode(
        V8JitMode::Disabled,
        Some("2"),
        || {
            order.borrow_mut().push("data");
            Ok(())
        },
        |_| order.borrow_mut().push("flag"),
        |_| order.borrow_mut().push("platform"),
    );
    assert!(outcome.is_ok());
    assert_eq!(order.into_inner(), vec!["data", "flag", "platform"]);
}

#[test]
fn refused_data_leaves_flags_and_platform_alone() {
    let outcome = initialize_v8_with_mode(
        V8JitMode::Disabled,
        None,
        || Err(3),
        |_| panic!("no flag"),
        |_| panic!("no platform"),
    );
    assert_eq!(
        outcome,
        Err("failed to initialize ICU data: 3".to_string())
    );
}
