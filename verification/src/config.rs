//! Configuration data: the per-tool watched-folder settings, the saved
//! credentials, and the catalogue of available tools. Loading and saving the
//! configuration file is I/O and lives outside this crate; everything here
//! is the in-memory record and the rules that update it.

use crate::text;
use vstd::prelude::*;
use vstd::string::StrSliceExecFns;
use vstd::string::StringExecFns;

verus! {

/// What can go wrong around the configuration file.
#[derive(Debug, Clone, PartialEq)]
pub enum ConfigError {
    /// OS error while reading or writing, with its message.
    Io(String),
    /// Malformed configuration text, with the parser's message.
    Json(String),
    /// No configuration directory on this system.
    NoConfigDir,
    /// The named tool is not in the catalogue.
    ToolNotFound(String),
}

/// Saved authentication data.
#[derive(Debug, PartialEq)]
pub struct AuthConfig {
    pub token: Option<String>,
    pub email: Option<String>,
    pub password: Option<String>,
}

impl Clone for AuthConfig {
    fn clone(&self) -> (r: Self)
        ensures
            r == *self,
    {
        AuthConfig {
            token: crate::api::clone_opt_string(&self.token),
            email: crate::api::clone_opt_string(&self.email),
            password: crate::api::clone_opt_string(&self.password),
        }
    }
}

impl AuthConfig {
    /// Empty authentication data: nothing saved.
    pub fn new_empty() -> (r: AuthConfig)
        ensures
            r.token is None,
            r.email is None,
            r.password is None,
    {
        AuthConfig { token: None, email: None, password: None }
    }
}

/// Application-wide settings.
#[derive(Debug, PartialEq)]
pub struct GeneralSettings {
    pub start_on_login: bool,
    pub start_minimized: bool,
    pub show_notifications: bool,
    pub language: String,
}

impl Clone for GeneralSettings {
    fn clone(&self) -> (r: Self)
        ensures
            r == *self,
    {
        GeneralSettings {
            start_on_login: self.start_on_login,
            start_minimized: self.start_minimized,
            show_notifications: self.show_notifications,
            language: self.language.clone(),
        }
    }
}

/// One option handed to a tool, as the key and textual value of a form
/// field.
#[derive(Debug, PartialEq)]
pub struct ToolOption {
    pub key: String,
    pub value: String,
}

impl View for ToolOption {
    type V = (Seq<char>, Seq<char>);

    open spec fn view(&self) -> (Seq<char>, Seq<char>) {
        (self.key@, self.value@)
    }
}

impl DeepView for ToolOption {
    type V = (Seq<char>, Seq<char>);

    open spec fn deep_view(&self) -> (Seq<char>, Seq<char>) {
        self.view()
    }
}

impl Clone for ToolOption {
    fn clone(&self) -> (r: Self)
        ensures
            r == *self,
    {
        ToolOption { key: self.key.clone(), value: self.value.clone() }
    }
}

/// Where a tool writes its output.
#[derive(Debug, PartialEq)]
pub enum OutputMode {
    /// Beside the input file.
    SameFolder,
    /// In a "Processed" subfolder beside the input file.
    Subfolder,
    /// In a fixed directory, given as a path string.
    Custom(String),
}

/// The mathematical value of an output mode.
pub enum OutputModeView {
    SameFolder,
    Subfolder,
    Custom(Seq<char>),
}

impl View for OutputMode {
    type V = OutputModeView;

    open spec fn view(&self) -> OutputModeView {
        match self {
            OutputMode::SameFolder => OutputModeView::SameFolder,
            OutputMode::Subfolder => OutputModeView::Subfolder,
            OutputMode::Custom(s) => OutputModeView::Custom(s@),
        }
    }
}

impl Clone for OutputMode {
    fn clone(&self) -> (r: Self)
        ensures
            r@ == self@,
    {
        match self {
            OutputMode::SameFolder => OutputMode::SameFolder,
            OutputMode::Subfolder => OutputMode::Subfolder,
            OutputMode::Custom(s) => OutputMode::Custom(s.clone()),
        }
    }
}

/// The per-tool watched-folder configuration.
#[derive(Debug, PartialEq)]
pub struct ToolConfig {
    pub id: String,
    pub enabled: bool,
    pub folder_path: Option<String>,
    pub output_mode: OutputMode,
    pub options: Vec<ToolOption>,
}

/// The mathematical value of a tool configuration.
#[verifier::ext_equal]
pub struct ToolConfigView {
    pub id: Seq<char>,
    pub enabled: bool,
    pub folder_path: Option<Seq<char>>,
    pub output_mode: OutputModeView,
    pub options: Seq<(Seq<char>, Seq<char>)>,
}

impl View for ToolConfig {
    type V = ToolConfigView;

    open spec fn view(&self) -> ToolConfigView {
        ToolConfigView {
            id: self.id@,
            enabled: self.enabled,
            folder_path: match self.folder_path {
                Some(p) => Some(p@),
                None => None,
            },
            output_mode: self.output_mode@,
            options: self.options.deep_view(),
        }
    }
}

impl DeepView for ToolConfig {
    type V = ToolConfigView;

    open spec fn deep_view(&self) -> ToolConfigView {
        self.view()
    }
}

impl Clone for ToolConfig {
    fn clone(&self) -> (r: Self)
        ensures
            r@ == self@,
    {
        let options = self.options.clone();
        proof {
            assert forall|i: int| 0 <= i < self.options@.len() implies options@[i]
                == self.options@[i] by {
                assert(cloned::<ToolOption>(self.options@[i], options@[i]));
            }
            assert(options@ =~= self.options@);
            assert(options.deep_view() =~= self.options.deep_view());
        }
        let r = ToolConfig {
            id: self.id.clone(),
            enabled: self.enabled,
            folder_path: crate::api::clone_opt_string(&self.folder_path),
            output_mode: self.output_mode.clone(),
            options,
        };
        proof {
            assert(r@ =~= self@);
        }
        r
    }
}

/// A tool of the catalogue, for display and endpoint selection.
#[derive(Debug, Clone, PartialEq)]
pub struct ToolDefinition {
    pub id: String,
    pub name: String,
    pub name_da: String,
    pub description: String,
    pub description_da: String,
    pub api_endpoint: String,
    pub icon: String,
    pub has_options: bool,
}

/// The whole persisted application configuration.
#[derive(Debug, PartialEq)]
pub struct AppConfig {
    pub version: u32,
    pub general: GeneralSettings,
    pub tools: Vec<ToolConfig>,
    pub auth: Option<AuthConfig>,
}

impl Clone for AppConfig {
    fn clone(&self) -> (r: Self)
        ensures
            r.version == self.version,
            r.general == self.general,
            r.tools_view() == self.tools_view(),
            r.auth == self.auth,
    {
        let tools = self.tools.clone();
        proof {
            assert forall|i: int| 0 <= i < self.tools@.len() implies tools.deep_view()[i]
                =~= self.tools.deep_view()[i] by {
                assert(cloned::<ToolConfig>(self.tools@[i], tools@[i]));
            }
            assert(tools.deep_view() =~= self.tools.deep_view());
        }
        AppConfig {
            version: self.version,
            general: self.general.clone(),
            tools,
            auth: match &self.auth {
                Some(a) => Some(a.clone()),
                None => None,
            },
        }
    }
}

/// A matching entry at `j` puts `tool_idx` at or before `j`, on a match.
pub proof fn lemma_tool_idx_witness(ts: Seq<ToolConfigView>, id: Seq<char>, j: int)
    requires
        0 <= j < ts.len(),
        ts[j].id == id,
    ensures
        0 <= tool_idx(ts, id) <= j,
        ts[tool_idx(ts, id)].id == id,
    decreases ts.len(),
{
    if ts[0].id == id {
    } else {
        let rest = ts.drop_first();
        assert(rest[j - 1] == ts[j]);
        lemma_tool_idx_witness(rest, id, j - 1);
        assert(ts[tool_idx(rest, id) + 1] == rest[tool_idx(rest, id)]);
    }
}

/// The identifiers of the tools the catalogue offers, in catalogue order.
pub open spec fn available_tool_ids() -> Seq<Seq<char>> {
    seq![
        "compress"@,
        "outline"@,
        "pdf-to-word"@,
        "pdf-to-excel"@,
        "pdf-to-jpg"@,
        "rotate"@,
        "unlock"@,
        "ocr"@,
        "bleed"@,
    ]
}

/// First index of the tool with the given identifier, or -1.
pub open spec fn tool_idx(ts: Seq<ToolConfigView>, id: Seq<char>) -> int
    decreases ts.len(),
{
    if ts.len() == 0 {
        -1
    } else if ts[0].id == id {
        0
    } else {
        let r = tool_idx(ts.drop_first(), id);
        if r == -1 {
            -1
        } else {
            r + 1
        }
    }
}

/// What `tool_idx` says about the sequence: it is the first index bearing
/// the identifier, or -1 when no entry bears it.
pub proof fn lemma_tool_idx(ts: Seq<ToolConfigView>, id: Seq<char>)
    ensures
        -1 <= tool_idx(ts, id) < ts.len(),
        tool_idx(ts, id) == -1 ==> (forall|i: int| 0 <= i < ts.len() ==> ts[i].id != id),
        tool_idx(ts, id) >= 0 ==> ts[tool_idx(ts, id)].id == id,
        tool_idx(ts, id) >= 0 ==> (forall|i: int| 0 <= i < tool_idx(ts, id) ==> ts[i].id != id),
    decreases ts.len(),
{
    if ts.len() == 0 {
    } else if ts[0].id == id {
    } else {
        let rest = ts.drop_first();
        lemma_tool_idx(rest, id);
        if tool_idx(ts, id) == -1 {
            assert forall|i: int| 0 <= i < ts.len() implies ts[i].id != id by {
                if i > 0 {
                    assert(rest[i - 1] == ts[i]);
                    assert(rest[i - 1].id != id);
                }
            }
        } else {
            let t = tool_idx(ts, id);
            assert(t == tool_idx(rest, id) + 1);
            assert(ts[t] == rest[t - 1]);
            assert forall|i: int| 0 <= i < t implies ts[i].id != id by {
                if i > 0 {
                    assert(rest[i - 1] == ts[i]);
                    assert(rest[i - 1].id != id);
                }
            }
        }
    }
}

impl AppConfig {
    /// The views of the configured tools, in order.
    pub open spec fn tools_view(&self) -> Seq<ToolConfigView> {
        self.tools.deep_view()
    }

    /// Enable a tool on a folder: an unknown identifier is rejected; an
    /// already-configured tool is switched on and pointed at the folder; a
    /// new tool is appended with the subfolder output mode and no options.
    /// (Creating the folder and its "Processed" sibling on disk is the
    /// caller's part.)
    pub fn enable_tool(&mut self, tool_id: &str, folder_path: &str) -> (r: Result<
        (),
        ConfigError,
    >)
        ensures
            !available_tool_ids().contains(tool_id@) ==> (r matches Err(
                ConfigError::ToolNotFound(t),
            ) && t@ == tool_id@ && *final(self) == *old(self)),
            available_tool_ids().contains(tool_id@) ==> {
                &&& r is Ok
                &&& final(self).version == old(self).version
                &&& final(self).general == old(self).general
                &&& final(self).auth == old(self).auth
                &&& ({
                    let ts = old(self).tools_view();
                    let i = tool_idx(ts, tool_id@);
                    if i >= 0 {
                        final(self).tools_view() == ts.update(
                            i,
                            ToolConfigView {
                                enabled: true,
                                folder_path: Some(folder_path@),
                                ..ts[i]
                            },
                        )
                    } else {
                        final(self).tools_view() == ts.push(
                            ToolConfigView {
                                id: tool_id@,
                                enabled: true,
                                folder_path: Some(folder_path@),
                                output_mode: OutputModeView::Subfolder,
                                options: Seq::empty(),
                            },
                        )
                    }
                })
            },
    {
        let available = get_available_tools();
        let mut known = false;
        let mut k: usize = 0;
        while k < available.len()
            invariant
                k <= available@.len(),
                available@.len() == available_tool_ids().len(),
                forall|i: int| 0 <= i < available@.len() ==> (#[trigger] available@[i]).id@
                    == available_tool_ids()[i],
                known <==> (exists|i: int|
                    0 <= i < k && available_tool_ids()[i] == tool_id@),
            decreases available@.len() - k,
        {
            if text::str_eq(available[k].id.as_str(), tool_id) {
                known = true;
            }
            k = k + 1;
        }
        proof {
            if available_tool_ids().contains(tool_id@) {
                let wi = choose|i: int|
                    0 <= i < available_tool_ids().len() && available_tool_ids()[i] == tool_id@;
                assert(0 <= wi < k);
            }
            if known {
                let wi = choose|i: int| 0 <= i < k && available_tool_ids()[i] == tool_id@;
                assert(0 <= wi < available_tool_ids().len());
                assert(available_tool_ids().contains(tool_id@));
            }
        }
        if !known {
            return Err(ConfigError::ToolNotFound(String::from_str(tool_id)));
        }
        let ghost ts = self.tools_view();
        proof {
            lemma_tool_idx(ts, tool_id@);
        }
        let n = self.tools.len();
        let mut j: usize = 0;
        while j < n
            invariant
                j <= n,
                n == self.tools@.len(),
                ts == self.tools_view(),
                ts == old(self).tools_view(),
                available_tool_ids().contains(tool_id@),
                self.version == old(self).version,
                self.general == old(self).general,
                self.auth == old(self).auth,
                forall|i: int| 0 <= i < j ==> ts[i].id != tool_id@,
            decreases n - j,
        {
            if text::str_eq(self.tools[j].id.as_str(), tool_id) {
                proof {
                    assert(ts[j as int] == self.tools@[j as int]@);
                    assert(ts[j as int].id == tool_id@);
                }
                let mut tc = self.tools[j].clone();
                tc.enabled = true;
                tc.folder_path = Some(String::from_str(folder_path));
                proof {
                    assert(tc@ =~= (ToolConfigView {
                        enabled: true,
                        folder_path: Some(folder_path@),
                        ..ts[j as int]
                    }));
                    lemma_tool_idx_witness(ts, tool_id@, j as int);
                    if tool_idx(ts, tool_id@) < j as int {
                        assert(ts[tool_idx(ts, tool_id@)].id == tool_id@);
                        assert(false);
                    }
                    assert(tool_idx(ts, tool_id@) == j as int);
                }
                self.tools[j] = tc;
                proof {
                    assert(self.tools_view() =~= ts.update(
                        j as int,
                        ToolConfigView {
                            enabled: true,
                            folder_path: Some(folder_path@),
                            ..ts[j as int]
                        },
                    ));
                }
                return Ok(());
            }
            proof {
                assert(ts[j as int] == self.tools@[j as int]@);
            }
            j = j + 1;
        }
        proof {
            if tool_idx(ts, tool_id@) >= 0 {
                assert(ts[tool_idx(ts, tool_id@)].id == tool_id@);
                assert(false);
            }
        }
        let fresh = ToolConfig {
            id: String::from_str(tool_id),
            enabled: true,
            folder_path: Some(String::from_str(folder_path)),
            output_mode: OutputMode::Subfolder,
            options: Vec::new(),
        };
        proof {
            assert(fresh.options.deep_view() =~= Seq::<(Seq<char>, Seq<char>)>::empty());
            assert(fresh@ =~= (ToolConfigView {
                id: tool_id@,
                enabled: true,
                folder_path: Some(folder_path@),
                output_mode: OutputModeView::Subfolder,
                options: Seq::empty(),
            }));
        }
        self.tools.push(fresh);
        proof {
            assert(self.tools_view() =~= ts.push(
                ToolConfigView {
                    id: tool_id@,
                    enabled: true,
                    folder_path: Some(folder_path@),
                    output_mode: OutputModeView::Subfolder,
                    options: Seq::empty(),
                },
            ));
        }
        Ok(())
    }

    /// Switch a tool off; unknown identifiers are ignored.
    pub fn disable_tool(&mut self, tool_id: &str)
        ensures
            final(self).version == old(self).version,
            final(self).general == old(self).general,
            final(self).auth == old(self).auth,
            ({
                let ts = old(self).tools_view();
                let i = tool_idx(ts, tool_id@);
                if i >= 0 {
                    final(self).tools_view() == ts.update(
                        i,
                        ToolConfigView { enabled: false, ..ts[i] },
                    )
                } else {
                    final(self).tools_view() == ts
                }
            }),
    {
        let ghost ts = self.tools_view();
        proof {
            lemma_tool_idx(ts, tool_id@);
        }
        let n = self.tools.len();
        let mut j: usize = 0;
        while j < n
            invariant
                j <= n,
                n == self.tools@.len(),
                ts == self.tools_view(),
                ts == old(self).tools_view(),
                self.version == old(self).version,
                self.general == old(self).general,
                self.auth == old(self).auth,
                forall|i: int| 0 <= i < j ==> ts[i].id != tool_id@,
            decreases n - j,
        {
            if text::str_eq(self.tools[j].id.as_str(), tool_id) {
                proof {
                    assert(ts[j as int] == self.tools@[j as int]@);
                    assert(ts[j as int].id == tool_id@);
                }
                let mut tc = self.tools[j].clone();
                tc.enabled = false;
                proof {
                    assert(tc@ =~= (ToolConfigView { enabled: false, ..ts[j as int] }));
                    lemma_tool_idx_witness(ts, tool_id@, j as int);
                    if tool_idx(ts, tool_id@) < j as int {
                        assert(ts[tool_idx(ts, tool_id@)].id == tool_id@);
                        assert(false);
                    }
                    assert(tool_idx(ts, tool_id@) == j as int);
                }
                self.tools[j] = tc;
                proof {
                    assert(self.tools_view() =~= ts.update(
                        j as int,
                        ToolConfigView { enabled: false, ..ts[j as int] },
                    ));
                }
                return ;
            }
            proof {
                assert(ts[j as int] == self.tools@[j as int]@);
            }
            j = j + 1;
        }
        proof {
            if tool_idx(ts, tool_id@) >= 0 {
                assert(ts[tool_idx(ts, tool_id@)].id == tool_id@);
                assert(false);
            }
        }
    }

    /// Replace the option map of a configured tool; an identifier with no
    /// configuration entry is rejected.
    pub fn update_tool_options(&mut self, tool_id: &str, options: Vec<ToolOption>) -> (r: Result<
        (),
        ConfigError,
    >)
        ensures
            final(self).version == old(self).version,
            final(self).general == old(self).general,
            final(self).auth == old(self).auth,
            ({
                let ts = old(self).tools_view();
                let i = tool_idx(ts, tool_id@);
                if i >= 0 {
                    r is Ok && final(self).tools_view() == ts.update(
                        i,
                        ToolConfigView { options: options.deep_view(), ..ts[i] },
                    )
                } else {
                    (r matches Err(ConfigError::ToolNotFound(t)) && t@ == tool_id@) && *final(self)
                        == *old(self)
                }
            }),
    {
        let ghost ts = self.tools_view();
        proof {
            lemma_tool_idx(ts, tool_id@);
        }
        let ghost ov = options.deep_view();
        let n = self.tools.len();
        let mut j: usize = 0;
        let mut opts = options;
        while j < n
            invariant
                j <= n,
                n == self.tools@.len(),
                *self == *old(self),
                ts == self.tools_view(),
                opts.deep_view() == ov,
                ov == options.deep_view(),
                forall|i: int| 0 <= i < j ==> ts[i].id != tool_id@,
            decreases n - j,
        {
            proof {
                assert(ts[j as int] == self.tools@[j as int]@);
            }
            if text::str_eq(self.tools[j].id.as_str(), tool_id) {
                proof {
                    assert(ts[j as int].id == tool_id@);
                    lemma_tool_idx_witness(ts, tool_id@, j as int);
                    if tool_idx(ts, tool_id@) < j as int {
                        assert(ts[tool_idx(ts, tool_id@)].id == tool_id@);
                        assert(false);
                    }
                }
                let mut tc = self.tools[j].clone();
                tc.options = opts;
                proof {
                    assert(tc@ =~= (ToolConfigView { options: ov, ..ts[j as int] }));
                }
                self.tools[j] = tc;
                proof {
                    assert(self.tools_view() =~= ts.update(
                        j as int,
                        ToolConfigView { options: ov, ..ts[j as int] },
                    ));
                }
                return Ok(());
            }
            proof {
                assert(ts[j as int] == self.tools@[j as int]@);
            }
            j = j + 1;
        }
        proof {
            if tool_idx(ts, tool_id@) >= 0 {
                assert(ts[tool_idx(ts, tool_id@)].id == tool_id@);
                assert(false);
            }
        }
        Err(ConfigError::ToolNotFound(String::from_str(tool_id)))
    }

    /// The currently enabled tools, in configuration order.
    pub fn get_enabled_tools(&self) -> (r: Vec<&ToolConfig>)
        ensures
            r.deep_view() == self.tools_view().filter(|t: ToolConfigView| t.enabled),
    {
        let mut r: Vec<&ToolConfig> = Vec::new();
        let n = self.tools.len();
        let mut j: usize = 0;
        proof {
            reveal(Seq::filter);
            assert(r.deep_view() =~= self.tools_view().take(0).filter(
                |t: ToolConfigView| t.enabled,
            ));
        }
        while j < n
            invariant
                j <= n,
                n == self.tools@.len(),
                r.deep_view() == self.tools_view().take(j as int).filter(
                    |t: ToolConfigView| t.enabled,
                ),
            decreases n - j,
        {
            let ghost dv0 = r.deep_view();
            let ghost tv = self.tools_view();
            if self.tools[j].enabled {
                r.push(&self.tools[j]);
            }
            proof {
                reveal(Seq::filter);
                assert(tv.take(j + 1).drop_last() =~= tv.take(j as int));
                assert(tv.take(j + 1).last() == tv[j as int]);
                if self.tools@[j as int].enabled {
                    assert(r.deep_view() =~= dv0.push(tv[j as int]));
                }
            }
            j = j + 1;
        }
        proof {
            assert(self.tools_view().take(n as int) =~= self.tools_view());
        }
        r
    }
}

impl Default for AppConfig {
    /// The configuration a fresh installation starts from.
    fn default() -> (r: AppConfig)
        ensures
            r.version == 1,
            r.general.start_on_login == true,
            r.general.start_minimized == true,
            r.general.show_notifications == true,
            r.general.language@ == "da"@,
            r.tools_view() == Seq::<ToolConfigView>::empty(),
            r.auth is None,
    {
        let r = AppConfig {
            version: 1,
            general: GeneralSettings {
                start_on_login: true,
                start_minimized: true,
                show_notifications: true,
                language: String::from_str("da"),
            },
            tools: Vec::new(),
            auth: None,
        };
        proof {
            assert(r.tools_view() =~= Seq::<ToolConfigView>::empty());
        }
        r
    }
}

/// One catalogue entry, from its literal fields.
fn tool_def(
    id: &str,
    name: &str,
    name_da: &str,
    description: &str,
    description_da: &str,
    api_endpoint: &str,
    icon: &str,
    has_options: bool,
) -> (r: ToolDefinition)
    ensures
        r.id@ == id@,
        r.api_endpoint@ == api_endpoint@,
        r.has_options == has_options,
{
    ToolDefinition {
        id: String::from_str(id),
        name: String::from_str(name),
        name_da: String::from_str(name_da),
        description: String::from_str(description),
        description_da: String::from_str(description_da),
        api_endpoint: String::from_str(api_endpoint),
        icon: String::from_str(icon),
        has_options,
    }
}

/// The catalogue of available tools: nine fixed entries whose identifiers
/// and endpoints are pinned here; names and descriptions are display text.
pub fn get_available_tools() -> (r: Vec<ToolDefinition>)
    ensures
        r@.len() == available_tool_ids().len(),
        forall|i: int| 0 <= i < r@.len() ==> (#[trigger] r@[i]).id@ == available_tool_ids()[i],
        forall|i: int| 0 <= i < r@.len() ==> (#[trigger] r@[i]).api_endpoint@
            == available_tool_ids()[i],
{
    let mut r: Vec<ToolDefinition> = Vec::new();
    r.push(tool_def(
        "compress",
        "Compress PDF",
        "Komprimer PDF",
        "Reduce PDF file size while maintaining quality",
        "Reducer PDF filst\u{f8}rrelse og bevar kvaliteten",
        "compress",
        "compress",
        true,
    ));
    r.push(tool_def(
        "outline",
        "Outline Fonts",
        "Konverter Skrifttyper",
        "Convert text to vector outlines for printing",
        "Konverter tekst til vektorstier til tryk",
        "outline",
        "text",
        false,
    ));
    r.push(tool_def(
        "pdf-to-word",
        "PDF to Word",
        "PDF til Word",
        "Convert PDF to editable Word document",
        "Konverter PDF til redigerbart Word-dokument",
        "pdf-to-word",
        "file-word",
        false,
    ));
    r.push(tool_def(
        "pdf-to-excel",
        "PDF to Excel",
        "PDF til Excel",
        "Convert PDF tables to Excel spreadsheet",
        "Konverter PDF-tabeller til Excel-regneark",
        "pdf-to-excel",
        "file-excel",
        false,
    ));
    r.push(tool_def(
        "pdf-to-jpg",
        "PDF to JPG",
        "PDF til JPG",
        "Convert PDF pages to JPG images",
        "Konverter PDF-sider til JPG-billeder",
        "pdf-to-jpg",
        "image",
        false,
    ));
    r.push(tool_def(
        "rotate",
        "Rotate PDF",
        "Roter PDF",
        "Rotate PDF pages 90, 180, or 270 degrees",
        "Roter PDF-sider 90, 180 eller 270 grader",
        "rotate",
        "rotate",
        true,
    ));
    r.push(tool_def(
        "unlock",
        "Unlock PDF",
        "L\u{e5}s PDF Op",
        "Remove password protection from PDF",
        "Fjern adgangskodebeskyttelse fra PDF",
        "unlock",
        "unlock",
        false,
    ));
    r.push(tool_def(
        "ocr",
        "OCR PDF",
        "OCR PDF",
        "Make scanned PDFs searchable with OCR",
        "G\u{f8}r scannede PDF'er s\u{f8}gbare med OCR",
        "ocr",
        "scan",
        true,
    ));
    r.push(tool_def(
        "bleed",
        "Add Bleed",
        "Tilf\u{f8}j Sk\u{e6}rem\u{e6}rker",
        "Add bleed margins for professional printing",
        "Tilf\u{f8}j sk\u{e6}rem\u{e6}rker til professionelt tryk",
        "bleed",
        "expand",
        true,
    ));
    r
}

} // verus!
