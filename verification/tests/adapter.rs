use three_rs::adapter::{choose_adapter, AdapterKind};

fn fleet() -> Vec<(String, AdapterKind)> {
    vec![
        ("llvmpipe (LLVM 17.0.6, 256 bits)".to_string(), AdapterKind::Other),
        ("NVIDIA GeForce RTX 3060".to_string(), AdapterKind::DiscreteGpu),
        ("Intel(R) UHD Graphics 620".to_string(), AdapterKind::IntegratedGpu),
        ("Intel(R) Arc A770".to_string(), AdapterKind::DiscreteGpu),
    ]
}

#[test]
fn a_name_asked_for_picks_the_first_adapter_that_holds_it() {
    assert_eq!(choose_adapter(&fleet(), Some("Intel")), Ok(2));
    assert_eq!(choose_adapter(&fleet(), Some("Arc")), Ok(3));
    assert_eq!(choose_adapter(&fleet(), Some("llvmpipe")), Ok(0));
}

#[test]
fn a_name_that_no_adapter_holds_is_an_error_naming_it() {
    assert_eq!(choose_adapter(&fleet(), Some("Radeon")), Err(Some("Radeon".to_string())));
    assert_eq!(choose_adapter(&[], Some("Intel")), Err(Some("Intel".to_string())));
}

#[test]
fn without_a_name_an_integrated_gpu_comes_first() {
    assert_eq!(choose_adapter(&fleet(), None), Ok(2));
}

#[test]
fn without_an_integrated_gpu_a_discrete_one_is_taken() {
    let mut adapters = fleet();
    adapters.remove(2);
    assert_eq!(choose_adapter(&adapters, None), Ok(1));
}

#[test]
fn without_either_the_first_adapter_is_taken() {
    let adapters = vec![
        ("llvmpipe".to_string(), AdapterKind::Other),
        ("SwiftShader".to_string(), AdapterKind::Other),
    ];
    assert_eq!(choose_adapter(&adapters, None), Ok(0));
}

#[test]
fn with_no_adapter_at_all_there_is_nothing_to_choose() {
    assert_eq!(choose_adapter(&[], None), Err(None));
}
