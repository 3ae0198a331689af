//! What clients submit for proving and running, and what a run produces.
use vstd::prelude::*;
use crate::auth::same_text;

verus! {

/// A Cairo layout.
#[derive(Clone, Copy, Debug, PartialEq, Eq, Structural)]
pub enum Layout {
    Small,
    Dex,
    Recursive,
    RecursiveWithPoseidon,
    Starknet,
    StarknetWithKeccak,
}

/// A layout's name.
pub open spec fn layout_name(l: Layout) -> Seq<char> {
    match l {
        Layout::Small => "small"@,
        Layout::Dex => "dex"@,
        Layout::Recursive => "recursive"@,
        Layout::RecursiveWithPoseidon => "recursive_with_poseidon"@,
        Layout::Starknet => "starknet"@,
        Layout::StarknetWithKeccak => "starknet_with_keccak"@,
    }
}

impl Layout {
    /// Whether programs can be bootloaded on this layout.
    pub open spec fn spec_is_bootloadable(self) -> bool {
        !(self == Layout::Small || self == Layout::Dex)
    }

    pub fn is_bootloadable(&self) -> (r: bool)
        ensures
            r == self.spec_is_bootloadable(),
    {
        match self {
            Layout::Recursive | Layout::RecursiveWithPoseidon | Layout::Starknet | Layout::StarknetWithKeccak => true,
            Layout::Small | Layout::Dex => false,
        }
    }

    /// The layout's name.
    pub fn name(&self) -> (r: &'static str)
        ensures
            r@ == layout_name(*self),
    {
        match self {
            Layout::Small => "small",
            Layout::Dex => "dex",
            Layout::Recursive => "recursive",
            Layout::RecursiveWithPoseidon => "recursive_with_poseidon",
            Layout::Starknet => "starknet",
            Layout::StarknetWithKeccak => "starknet_with_keccak",
        }
    }

    /// The layout with this name.
    pub fn from_name(s: &str) -> (r: Option<Layout>)
        ensures
            match r {
                Some(l) => s@ == layout_name(l),
                None => forall|l: Layout| s@ != #[trigger] layout_name(l),
            },
    {
        if same_text(s, "small") {
            Some(Layout::Small)
        } else if same_text(s, "dex") {
            Some(Layout::Dex)
        } else if same_text(s, "recursive") {
            Some(Layout::Recursive)
        } else if same_text(s, "recursive_with_poseidon") {
            Some(Layout::RecursiveWithPoseidon)
        } else if same_text(s, "starknet") {
            Some(Layout::Starknet)
        } else if same_text(s, "starknet_with_keccak") {
            Some(Layout::StarknetWithKeccak)
        } else {
            None
        }
    }

    /// The bootloader program for a bootloadable layout.
    pub fn bootloader_path(&self) -> (r: Option<&'static str>)
        ensures
            r.is_some() == self.spec_is_bootloadable(),
            r.is_some() ==> r.unwrap()@ == "bootloaders/"@ + layout_name(*self) + ".json"@,
    {
        proof {
            reveal_strlit("bootloaders/");
            reveal_strlit(".json");
            reveal_strlit("recursive");
            reveal_strlit("recursive_with_poseidon");
            reveal_strlit("starknet");
            reveal_strlit("starknet_with_keccak");
            reveal_strlit("bootloaders/recursive.json");
            reveal_strlit("bootloaders/recursive_with_poseidon.json");
            reveal_strlit("bootloaders/starknet.json");
            reveal_strlit("bootloaders/starknet_with_keccak.json");
        }
        match self {
            Layout::Recursive => {
                assert("bootloaders/recursive.json"@ =~= "bootloaders/"@ + "recursive"@ + ".json"@);
                Some("bootloaders/recursive.json")
            },
            Layout::RecursiveWithPoseidon => {
                assert("bootloaders/recursive_with_poseidon.json"@ =~= "bootloaders/"@ + "recursive_with_poseidon"@ + ".json"@);
                Some("bootloaders/recursive_with_poseidon.json")
            },
            Layout::Starknet => {
                assert("bootloaders/starknet.json"@ =~= "bootloaders/"@ + "starknet"@ + ".json"@);
                Some("bootloaders/starknet.json")
            },
            Layout::StarknetWithKeccak => {
                assert("bootloaders/starknet_with_keccak.json"@ =~= "bootloaders/"@ + "starknet_with_keccak"@ + ".json"@);
                Some("bootloaders/starknet_with_keccak.json")
            },
            Layout::Small | Layout::Dex => None,
        }
    }
}

/// How a program is run.
#[derive(Clone, Copy, Debug, PartialEq, Eq, Structural)]
pub enum RunMode {
    Bootload,
    Pie,
    Trace,
}

/// A Cairo language version.
#[derive(Clone, Copy, Debug, PartialEq, Eq, Structural)]
pub enum CairoVersion {
    V0,
    V1,
}

impl CairoVersion {
    /// The version named `v0` or `v1`.
    pub fn from_name(s: &str) -> (r: Option<CairoVersion>)
        ensures
            r == Some(CairoVersion::V0) <==> s@ == "v0"@,
            r == Some(CairoVersion::V1) <==> s@ == "v1"@,
            r.is_none() <==> (s@ != "v0"@ && s@ != "v1"@),
    {
        proof {
            reveal_strlit("v0");
            reveal_strlit("v1");
            assert("v0"@[1] != "v1"@[1]);
        }
        if same_text(s, "v0") {
            Some(CairoVersion::V0)
        } else if same_text(s, "v1") {
            Some(CairoVersion::V1)
        } else {
            None
        }
    }
}

/// A Cairo 0 program to prove or run: the compiled program's JSON text and the
/// program input's JSON text.
#[derive(Debug)]
pub struct Cairo0ProverInput {
    pub program: Vec<u8>,
    pub program_input: Vec<u8>,
    pub layout: Layout,
    pub n_queries: Option<u32>,
    pub pow_bits: Option<u32>,
    pub run_mode: RunMode,
}

/// A Cairo program to prove or run: the compiled program's JSON text and the input
/// field elements, each as decimal text.
#[derive(Debug)]
pub struct CairoProverInput {
    pub program: Vec<u8>,
    pub program_input: Vec<String>,
    pub layout: Layout,
    pub n_queries: Option<u32>,
    pub pow_bits: Option<u32>,
    pub run_mode: RunMode,
}

/// A proof to bridge to another layout.
#[derive(Debug)]
pub struct LayoutBridgeInput {
    pub proof: Vec<u8>,
}

/// A request to generate a Starknet OS PIE for a block.
#[derive(Debug)]
pub struct SnosPieInput {
    pub compiled_os: Vec<u8>,
    pub block_number: u64,
    pub rpc_provider: String,
    pub layout: String,
    pub full_output: bool,
}

/// A program input of either Cairo version.
#[derive(Debug)]
pub enum CairoVersionedInput {
    Cairo(CairoProverInput),
    Cairo0(Cairo0ProverInput),
}

impl CairoVersionedInput {
    /// The number of queries, the proof-of-work bits and whether to bootload.
    pub fn get_parameters(&self) -> (r: (Option<u32>, Option<u32>, bool))
        ensures
            r == (match self {
                CairoVersionedInput::Cairo(i) => (i.n_queries, i.pow_bits, i.run_mode == RunMode::Bootload),
                CairoVersionedInput::Cairo0(i) => (i.n_queries, i.pow_bits, i.run_mode == RunMode::Bootload),
            }),
    {
        match self {
            CairoVersionedInput::Cairo(i) => (i.n_queries, i.pow_bits, i.run_mode == RunMode::Bootload),
            CairoVersionedInput::Cairo0(i) => (i.n_queries, i.pow_bits, i.run_mode == RunMode::Bootload),
        }
    }
}

/// The files a trace run produces.
#[derive(Debug)]
pub struct TraceFiles {
    pub private_input: String,
    pub public_input: String,
    pub memory: Vec<u8>,
    pub trace: Vec<u8>,
}

/// What a run produces: a PIE or trace files.
#[derive(Debug)]
pub enum RunResult {
    Pie(Vec<u8>),
    Trace(TraceFiles),
}

/// The id of a submitted job, as returned to the client.
#[derive(Clone, Copy, Debug, PartialEq, Eq, Structural)]
pub struct JobId {
    pub job_id: u64,
}

/// The job a status stream is asked for.
#[derive(Clone, Copy, Debug, PartialEq, Eq, Structural)]
pub struct JobParams {
    pub job_id: u64,
}

/// A request for an authentication nonce.
#[derive(Debug)]
pub struct GenerateNonceRequest {
    pub public_key: String,
}

/// The files of one run of a program.
#[derive(Debug)]
pub struct RunPaths {
    pub trace_file: String,
    pub memory_file: String,
    pub public_input_file: String,
    pub private_input_file: String,
    pub program_input_path: String,
    pub program: String,
    pub pie_output: String,
}

impl RunPaths {
    pub fn new(
        trace_file: String,
        memory_file: String,
        public_input_file: String,
        private_input_file: String,
        program_input_path: String,
        program: String,
        pie_output: String,
    ) -> (r: RunPaths)
        ensures
            r.trace_file@ == trace_file@,
            r.memory_file@ == memory_file@,
            r.public_input_file@ == public_input_file@,
            r.private_input_file@ == private_input_file@,
            r.program_input_path@ == program_input_path@,
            r.program@ == program@,
            r.pie_output@ == pie_output@,
    {
        RunPaths {
            trace_file,
            memory_file,
            public_input_file,
            private_input_file,
            program_input_path,
            program,
            pie_output,
        }
    }
}

} // verus!
