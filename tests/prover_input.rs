use prover::prover_input::{CairoVersion, CairoVersionedInput, Cairo0ProverInput, Layout, RunMode, RunPaths};

#[test]
fn layout_names_round_trip() {
    let all = [
        Layout::Small,
        Layout::Dex,
        Layout::Recursive,
        Layout::RecursiveWithPoseidon,
        Layout::Starknet,
        Layout::StarknetWithKeccak,
    ];
    for l in all {
        assert_eq!(Layout::from_name(l.name()), Some(l));
    }
    assert_eq!(Layout::Small.name(), "small");
    assert_eq!(Layout::from_name("starknet_with_keccak"), Some(Layout::StarknetWithKeccak));
    assert_eq!(Layout::from_name("plain"), None);
}

#[test]
fn bootloadable_layouts_have_bootloaders() {
    assert!(!Layout::Small.is_bootloadable());
    assert!(!Layout::Dex.is_bootloadable());
    assert!(Layout::Recursive.is_bootloadable());
    assert_eq!(Layout::Recursive.bootloader_path(), Some("bootloaders/recursive.json"));
    assert_eq!(Layout::StarknetWithKeccak.bootloader_path(), Some("bootloaders/starknet_with_keccak.json"));
    assert_eq!(Layout::Dex.bootloader_path(), None);
}

#[test]
fn cairo_versions_by_name() {
    assert_eq!(CairoVersion::from_name("v0"), Some(CairoVersion::V0));
    assert_eq!(CairoVersion::from_name("v1"), Some(CairoVersion::V1));
    assert_eq!(CairoVersion::from_name("v2"), None);
}

#[test]
fn parameters_of_an_input() {
    let input = CairoVersionedInput::Cairo0(Cairo0ProverInput {
        program: vec![],
        program_input: vec![],
        layout: Layout::Recursive,
        n_queries: Some(16),
        pow_bits: Some(20),
        run_mode: RunMode::Bootload,
    });
    assert_eq!(input.get_parameters(), (Some(16), Some(20), true));
}

#[test]
fn run_paths_keep_their_files() {
    let p = RunPaths::new(
        "t".to_string(),
        "m".to_string(),
        "pub".to_string(),
        "priv".to_string(),
        "in".to_string(),
        "prog".to_string(),
        "pie".to_string(),
    );
    assert_eq!(p.trace_file, "t");
    assert_eq!(p.pie_output, "pie");
}
