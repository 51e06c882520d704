//! Configuration of the local AI engine: which model, which hardware, which Python environment.
use vstd::prelude::*;

verus! {

/// The embedding models the engine can load.
#[derive(Clone, Copy, Debug, PartialEq, Eq, Structural)]
pub enum ModelId {
    /// google/siglip2-so400m-patch16-naflex (1152 dimensions)
    Siglip2So400m,
    /// google/siglip2-base-patch16-naflex (768 dimensions)
    Siglip2Base,
}

/// The text of `label` for each value.
pub open spec fn model_label_text(v: ModelId) -> Seq<char> {
    match v {
        ModelId::Siglip2So400m => "SigLIP 2 SO400M (Highest Accuracy)"@,
        ModelId::Siglip2Base => "SigLIP 2 Base (Faster / Lighter)"@,
    }
}

/// The text of `hf_model_id` for each value.
pub open spec fn model_hf_id_text(v: ModelId) -> Seq<char> {
    match v {
        ModelId::Siglip2So400m => "google/siglip2-so400m-patch16-naflex"@,
        ModelId::Siglip2Base => "google/siglip2-base-patch16-naflex"@,
    }
}

/// Each model is told apart by its hub id and its embedding length: the SO400M model is
/// `google/siglip2-so400m-patch16-naflex` with 1152 dimensions, the base model
/// `google/siglip2-base-patch16-naflex` with 768.
pub proof fn lemma_model_identity(m: ModelId)
    ensures
        (model_hf_id_text(m) == "google/siglip2-so400m-patch16-naflex"@) <==> m
            == ModelId::Siglip2So400m,
        (model_hf_id_text(m) == "google/siglip2-base-patch16-naflex"@) <==> m
            == ModelId::Siglip2Base,
        (model_dimension(m) == 1152) <==> m == ModelId::Siglip2So400m,
        (model_dimension(m) == 768) <==> m == ModelId::Siglip2Base,
{
    reveal_strlit("google/siglip2-so400m-patch16-naflex");
    reveal_strlit("google/siglip2-base-patch16-naflex");
    assert("google/siglip2-so400m-patch16-naflex"@[15] != "google/siglip2-base-patch16-naflex"@[15]);
}

impl ModelId {
    /// The name shown to the user.
    pub fn label(&self) -> (r: &str)
        ensures
            r@ == model_label_text(*self),
    {
        match self {
            ModelId::Siglip2So400m => "SigLIP 2 SO400M (Highest Accuracy)",
            ModelId::Siglip2Base => "SigLIP 2 Base (Faster / Lighter)",
        }
    }

    /// The model's identifier on the Hugging Face hub.
    pub fn hf_model_id(&self) -> (r: &str)
        ensures
            r@ == model_hf_id_text(*self),
    {
        match self {
            ModelId::Siglip2So400m => "google/siglip2-so400m-patch16-naflex",
            ModelId::Siglip2Base => "google/siglip2-base-patch16-naflex",
        }
    }

    /// The length of the embeddings the model produces.
    pub fn dimension(&self) -> (d: i32)
        ensures
            d == model_dimension(*self),
    {
        match self {
            ModelId::Siglip2So400m => 1152,
            ModelId::Siglip2Base => 768,
        }
    }
}

/// The embedding length of each model.
pub open spec fn model_dimension(m: ModelId) -> int {
    match m {
        ModelId::Siglip2So400m => 1152,
        ModelId::Siglip2Base => 768,
    }
}

/// The hardware the engine runs the model on.
#[derive(Clone, Copy, Debug, PartialEq, Eq, Structural)]
pub enum HardwareType {
    Auto,
    Nvidia,
    Amd,
    Cpu,
}

/// The text of `device` for each value.
pub open spec fn hardware_device_text(v: HardwareType) -> Seq<char> {
    match v {
        HardwareType::Auto => "auto"@,
        HardwareType::Nvidia => "cuda"@,
        HardwareType::Amd => "dml"@,
        HardwareType::Cpu => "cpu"@,
    }
}

/// The device the model is loaded on names the chosen hardware: `cuda` exactly for an Nvidia
/// GPU, `dml` exactly for an AMD GPU, `cpu` exactly for the processor, and `auto` exactly for the
/// automatic choice, so the four choices load on four different devices.
pub proof fn lemma_hardware_devices(h: HardwareType)
    ensures
        (hardware_device_text(h) == "cuda"@) <==> h == HardwareType::Nvidia,
        (hardware_device_text(h) == "dml"@) <==> h == HardwareType::Amd,
        (hardware_device_text(h) == "cpu"@) <==> h == HardwareType::Cpu,
        (hardware_device_text(h) == "auto"@) <==> h == HardwareType::Auto,
        forall|g: HardwareType| hardware_device_text(g) == hardware_device_text(h) ==> g == h,
{
    reveal_strlit("cuda");
    reveal_strlit("dml");
    reveal_strlit("cpu");
    reveal_strlit("auto");
    assert("cuda"@[0] != "dml"@[0] && "cuda"@[0] != "auto"@[0] && "dml"@[0] != "auto"@[0]);
    assert("cuda"@[1] != "cpu"@[1] && "cpu"@[0] != "dml"@[0] && "cpu"@[0] != "auto"@[0]);
}

/// The text of `setup_arg` for each value.
pub open spec fn hardware_setup_text(v: HardwareType) -> Seq<char> {
    match v {
        HardwareType::Auto => "auto"@,
        HardwareType::Nvidia => "nvidia"@,
        HardwareType::Amd => "amd"@,
        HardwareType::Cpu => "cpu"@,
    }
}

/// The setup script is told the hardware that was chosen: `nvidia` exactly for an Nvidia GPU,
/// `amd` exactly for an AMD GPU, `cpu` exactly for the processor and `auto` exactly for the
/// automatic choice.
pub proof fn lemma_hardware_setup_args(h: HardwareType)
    ensures
        (hardware_setup_text(h) == "nvidia"@) <==> h == HardwareType::Nvidia,
        (hardware_setup_text(h) == "amd"@) <==> h == HardwareType::Amd,
        (hardware_setup_text(h) == "cpu"@) <==> h == HardwareType::Cpu,
        (hardware_setup_text(h) == "auto"@) <==> h == HardwareType::Auto,
{
    reveal_strlit("nvidia");
    reveal_strlit("amd");
    reveal_strlit("cpu");
    reveal_strlit("auto");
    assert("nvidia"@[0] != "amd"@[0] && "nvidia"@[0] != "cpu"@[0] && "nvidia"@[0] != "auto"@[0]);
    assert("amd"@[1] != "auto"@[1] && "amd"@[0] != "cpu"@[0] && "cpu"@[0] != "auto"@[0]);
}

impl HardwareType {
    /// The default hardware choice, `Auto`.
    pub fn default_hardware() -> (h: HardwareType)
        ensures
            h == HardwareType::Auto,
    {
        HardwareType::Auto
    }

    /// The device name the engine is asked to load the model on.
    pub fn device(&self) -> (r: &str)
        ensures
            r@ == hardware_device_text(*self),
    {
        match self {
            HardwareType::Auto => "auto",
            HardwareType::Nvidia => "cuda",
            HardwareType::Amd => "dml",
            HardwareType::Cpu => "cpu",
        }
    }

    /// The value of the `--hardware` argument of the environment setup script.
    pub fn setup_arg(&self) -> (r: &str)
        ensures
            r@ == hardware_setup_text(*self),
    {
        match self {
            HardwareType::Auto => "auto",
            HardwareType::Nvidia => "nvidia",
            HardwareType::Amd => "amd",
            HardwareType::Cpu => "cpu",
        }
    }
}

/// The CUDA toolkit version the environment is built for.
#[derive(Clone, Copy, Debug, PartialEq, Eq, Structural)]
pub enum CudaVersion {
    V11_8,
    V12_1,
    V12_4,
    V12_6,
    V13_0,
}

/// The text of `as_str` for each value.
pub open spec fn cuda_version_text(v: CudaVersion) -> Seq<char> {
    match v {
        CudaVersion::V11_8 => "11.8"@,
        CudaVersion::V12_1 => "12.1"@,
        CudaVersion::V12_4 => "12.4"@,
        CudaVersion::V12_6 => "12.6"@,
        CudaVersion::V13_0 => "13.0"@,
    }
}

/// The text of `as_tag` for each value.
pub open spec fn cuda_tag_text(v: CudaVersion) -> Seq<char> {
    match v {
        CudaVersion::V11_8 => "cu118"@,
        CudaVersion::V12_1 => "cu121"@,
        CudaVersion::V12_4 => "cu124"@,
        CudaVersion::V12_6 => "cu126"@,
        CudaVersion::V13_0 => "cu130"@,
    }
}

/// The wheel tag of a CUDA version is `cu` followed by the version's digits: "12.4" is tagged
/// "cu124".
pub proof fn lemma_cuda_tag_from_version(v: CudaVersion)
    ensures
        cuda_version_text(v).len() == 4,
        cuda_version_text(v)[2] == '.',
        cuda_tag_text(v) == seq!['c', 'u'] + cuda_version_text(v).take(2) + cuda_version_text(
            v,
        ).skip(3),
{
    reveal_strlit("11.8");
    reveal_strlit("12.1");
    reveal_strlit("12.4");
    reveal_strlit("12.6");
    reveal_strlit("13.0");
    reveal_strlit("cu118");
    reveal_strlit("cu121");
    reveal_strlit("cu124");
    reveal_strlit("cu126");
    reveal_strlit("cu130");
    let t = cuda_version_text(v);
    assert(cuda_tag_text(v) =~= seq!['c', 'u'] + t.take(2) + t.skip(3));
}

impl CudaVersion {
    /// The default CUDA version, 12.4.
    pub fn default_version() -> (v: CudaVersion)
        ensures
            v == CudaVersion::V12_4,
    {
        CudaVersion::V12_4
    }

    /// The version number, such as "12.4".
    pub fn as_str(&self) -> (r: &str)
        ensures
            r@ == cuda_version_text(*self),
    {
        match self {
            CudaVersion::V11_8 => "11.8",
            CudaVersion::V12_1 => "12.1",
            CudaVersion::V12_4 => "12.4",
            CudaVersion::V12_6 => "12.6",
            CudaVersion::V13_0 => "13.0",
        }
    }

    /// The wheel tag of the version, such as "cu124".
    pub fn as_tag(&self) -> (r: &str)
        ensures
            r@ == cuda_tag_text(*self),
    {
        match self {
            CudaVersion::V11_8 => "cu118",
            CudaVersion::V12_1 => "cu121",
            CudaVersion::V12_4 => "cu124",
            CudaVersion::V12_6 => "cu126",
            CudaVersion::V13_0 => "cu130",
        }
    }
}

/// The Python version of the environment; `Auto` lets the setup tool choose.
#[derive(Clone, Copy, Debug, PartialEq, Eq, Structural)]
pub enum PythonVersion {
    Auto,
    V3_10,
    V3_11,
    V3_12,
}

/// The text of `as_str` for each value.
pub open spec fn python_version_text(v: PythonVersion) -> Seq<char> {
    match v {
        PythonVersion::Auto => "auto"@,
        PythonVersion::V3_10 => "3.10"@,
        PythonVersion::V3_11 => "3.11"@,
        PythonVersion::V3_12 => "3.12"@,
    }
}

impl PythonVersion {
    /// The default Python version, `Auto`.
    pub fn default_version() -> (v: PythonVersion)
        ensures
            v == PythonVersion::Auto,
    {
        PythonVersion::Auto
    }

    /// The version as given to the setup tool, such as "3.11", or "auto".
    pub fn as_str(&self) -> (r: &str)
        ensures
            r@ == python_version_text(*self),
    {
        match self {
            PythonVersion::Auto => "auto",
            PythonVersion::V3_10 => "3.10",
            PythonVersion::V3_11 => "3.11",
            PythonVersion::V3_12 => "3.12",
        }
    }
}

/// How the setup tool places packages into the environment.
#[derive(Clone, Copy, Debug, PartialEq, Eq, Structural)]
pub enum UvLinkMode {
    Copy,
    Hardlink,
    Symlink,
}

/// The text of `as_arg` for each value.
pub open spec fn link_mode_text(v: UvLinkMode) -> Seq<char> {
    match v {
        UvLinkMode::Copy => "copy"@,
        UvLinkMode::Hardlink => "hardlink"@,
        UvLinkMode::Symlink => "symlink"@,
    }
}

impl UvLinkMode {
    /// The default link mode, `Copy`.
    pub fn default_mode() -> (m: UvLinkMode)
        ensures
            m == UvLinkMode::Copy,
    {
        UvLinkMode::Copy
    }

    /// The value of the `--link-mode` argument.
    pub fn as_arg(&self) -> (r: &str)
        ensures
            r@ == link_mode_text(*self),
    {
        match self {
            UvLinkMode::Copy => "copy",
            UvLinkMode::Hardlink => "hardlink",
            UvLinkMode::Symlink => "symlink",
        }
    }
}

/// Whether the application manages the Python environment itself or uses one the user chose.
#[derive(Clone, Copy, Debug, PartialEq, Eq, Structural)]
pub enum AiMode {
    Auto,
    Manual,
}

/// The AI settings.
#[derive(Clone, Debug)]
pub struct AiConfig {
    pub enabled: bool,
    pub mode: AiMode,
    pub venv_path: Option<String>,
    pub model: ModelId,
    pub hardware: HardwareType,
    pub cuda_version: CudaVersion,
    pub python_version: PythonVersion,
    pub link_mode: UvLinkMode,
    pub use_appdata_models: bool,
}

/// The value of an optional string, as characters.
pub open spec fn opt_string_view(o: Option<String>) -> Option<Seq<char>> {
    match o {
        Some(s) => Some(s@),
        None => None,
    }
}

/// Two configurations agree on every setting.
pub open spec fn same_ai_config(a: AiConfig, b: AiConfig) -> bool {
    &&& a.enabled == b.enabled
    &&& a.mode == b.mode
    &&& opt_string_view(a.venv_path) == opt_string_view(b.venv_path)
    &&& a.model == b.model
    &&& a.hardware == b.hardware
    &&& a.cuda_version == b.cuda_version
    &&& a.python_version == b.python_version
    &&& a.link_mode == b.link_mode
    &&& a.use_appdata_models == b.use_appdata_models
}

/// Whether two optional strings hold the same text.
pub fn opt_string_eq(a: &Option<String>, b: &Option<String>) -> (r: bool)
    ensures
        r == (opt_string_view(*a) == opt_string_view(*b)),
{
    match (a, b) {
        (Some(x), Some(y)) => String::eq(x, y),
        (None, None) => true,
        _ => false,
    }
}

/// A copy of an optional string.
pub fn opt_string_copy(a: &Option<String>) -> (r: Option<String>)
    ensures
        opt_string_view(r) == opt_string_view(*a),
{
    match a {
        Some(x) => Some(x.clone()),
        None => None,
    }
}

impl AiConfig {
    /// The default settings: disabled, automatic environment, SO400M model, automatic hardware,
    /// CUDA 12.4, automatic Python, copied packages, models kept in the application data.
    pub fn default_config() -> (c: AiConfig)
        ensures
            !c.enabled,
            c.mode == AiMode::Auto,
            c.venv_path is None,
            c.model == ModelId::Siglip2So400m,
            c.hardware == HardwareType::Auto,
            c.cuda_version == CudaVersion::V12_4,
            c.python_version == PythonVersion::Auto,
            c.link_mode == UvLinkMode::Copy,
            c.use_appdata_models,
    {
        AiConfig {
            enabled: false,
            mode: AiMode::Auto,
            venv_path: None,
            model: ModelId::Siglip2So400m,
            hardware: HardwareType::Auto,
            cuda_version: CudaVersion::V12_4,
            python_version: PythonVersion::Auto,
            link_mode: UvLinkMode::Copy,
            use_appdata_models: true,
        }
    }

    /// Whether `self` and `other` hold the same settings.
    pub fn same_as(&self, other: &AiConfig) -> (r: bool)
        ensures
            r == same_ai_config(*self, *other),
    {
        self.enabled == other.enabled && self.mode == other.mode && opt_string_eq(
            &self.venv_path,
            &other.venv_path,
        ) && self.model == other.model && self.hardware == other.hardware && self.cuda_version
            == other.cuda_version && self.python_version == other.python_version
            && self.link_mode == other.link_mode && self.use_appdata_models
            == other.use_appdata_models
    }

    /// A copy of the settings.
    pub fn duplicate(&self) -> (c: AiConfig)
        ensures
            same_ai_config(c, *self),
    {
        AiConfig {
            enabled: self.enabled,
            mode: self.mode,
            venv_path: opt_string_copy(&self.venv_path),
            model: self.model,
            hardware: self.hardware,
            cuda_version: self.cuda_version,
            python_version: self.python_version,
            link_mode: self.link_mode,
            use_appdata_models: self.use_appdata_models,
        }
    }

    /// Whether the engine is told to keep its downloaded models in the application data
    /// directory: only for an environment that the application manages, and only when the user
    /// asked for it.
    pub fn models_in_app_data(&self) -> (r: bool)
        ensures
            r == (self.mode == AiMode::Auto && self.use_appdata_models),
    {
        self.mode == AiMode::Auto && self.use_appdata_models
    }
}

impl Default for AiConfig {
    fn default() -> (c: AiConfig)
        ensures
            !c.enabled,
            c.mode == AiMode::Auto,
            c.venv_path is None,
            c.model == ModelId::Siglip2So400m,
            c.hardware == HardwareType::Auto,
            c.cuda_version == CudaVersion::V12_4,
            c.python_version == PythonVersion::Auto,
            c.link_mode == UvLinkMode::Copy,
            c.use_appdata_models,
    {
        AiConfig::default_config()
    }
}

/// Where the Python executable of the engine lives.
#[derive(Clone, Debug)]
pub enum PythonEnvLocation {
    /// Inside the environment that the application manages.
    Managed,
    /// Inside the environment at this path, chosen by the user.
    UserVenv(String),
    /// Nowhere: manual mode without a chosen environment.
    Unset,
}

/// Where the engine's Python environment is, for the given settings.
pub fn python_env_location(config: &AiConfig) -> (loc: PythonEnvLocation)
    ensures
        config.mode == AiMode::Auto ==> loc is Managed,
        config.mode == AiMode::Manual && config.venv_path is None ==> loc is Unset,
        config.mode == AiMode::Manual && config.venv_path is Some ==> (loc matches
            PythonEnvLocation::UserVenv(p) && p@ == config.venv_path->0@),
{
    match config.mode {
        AiMode::Auto => PythonEnvLocation::Managed,
        AiMode::Manual => match &config.venv_path {
            Some(p) => PythonEnvLocation::UserVenv(p.clone()),
            None => PythonEnvLocation::Unset,
        },
    }
}

/// The path components, below the environment's directory, of its Python executable.
pub fn python_exe_components(windows: bool) -> (parts: (&'static str, &'static str))
    ensures
        windows ==> parts.0@ == "Scripts"@ && parts.1@ == "python.exe"@,
        !windows ==> parts.0@ == "bin"@ && parts.1@ == "python"@,
{
    if windows {
        ("Scripts", "python.exe")
    } else {
        ("bin", "python")
    }
}

/// Whether the Python environment is ready, and where its interpreter is.
#[derive(Clone, Debug)]
pub struct PythonStatus {
    pub venv_ready: bool,
    pub model_ready: bool,
    pub python_path: Option<String>,
}

impl PythonStatus {
    /// The status given the interpreter's path and whether a file exists there: ready exactly
    /// when it exists, and then it reports the path.
    pub fn from_probe(python_exe: String, exists: bool) -> (st: PythonStatus)
        ensures
            st.venv_ready == exists,
            st.model_ready == exists,
            exists ==> (st.python_path matches Some(p) && p@ == python_exe@),
            !exists ==> st.python_path is None,
    {
        PythonStatus {
            venv_ready: exists,
            model_ready: exists,
            python_path: if exists {
                Some(python_exe)
            } else {
                None
            },
        }
    }
}

/// The arguments given to `uv` to create or update the managed environment.
pub open spec fn setup_args_spec(
    config: AiConfig,
    setup_script: Seq<char>,
    venv_dir: Seq<char>,
) -> Seq<Seq<char>> {
    let python_version = python_version_text(config.python_version);
    let hardware = hardware_setup_text(config.hardware);
    let cuda_tag = cuda_tag_text(config.cuda_version);
    let link_mode = link_mode_text(config.link_mode);
    let head = if config.python_version == PythonVersion::Auto {
        seq!["run"@]
    } else {
        seq!["run"@, "--python"@, python_version]
    };
    head + seq![
        setup_script,
        "--venv"@,
        venv_dir,
        "--hardware"@,
        hardware,
        "--cuda"@,
        cuda_tag,
        "--link-mode"@,
        link_mode,
    ]
}

/// The texts of a list of strings.
pub open spec fn strings_view(v: Seq<String>) -> Seq<Seq<char>> {
    v.map_values(|s: String| s@)
}

/// The arguments of `uv` that run the setup script: the Python version when one is chosen,
/// the environment directory, the hardware, the CUDA wheel tag and the link mode.
pub fn setup_command_args(config: &AiConfig, setup_script: &str, venv_dir: &str) -> (args: Vec<
    String,
>)
    ensures
        strings_view(args@) == setup_args_spec(
            *config,
            setup_script@,
            venv_dir@,
        ),
{
    let mut args: Vec<String> = Vec::new();
    args.push("run".to_string());
    if config.python_version != PythonVersion::Auto {
        args.push("--python".to_string());
        args.push(config.python_version.as_str().to_string());
    }
    args.push(setup_script.to_string());
    args.push("--venv".to_string());
    args.push(venv_dir.to_string());
    args.push("--hardware".to_string());
    args.push(config.hardware.setup_arg().to_string());
    args.push("--cuda".to_string());
    args.push(config.cuda_version.as_tag().to_string());
    args.push("--link-mode".to_string());
    args.push(config.link_mode.as_arg().to_string());
    proof {
        assert(strings_view(args@) =~= setup_args_spec(
            *config,
            setup_script@,
            venv_dir@,
        ));
    }
    args
}

} // verus!
