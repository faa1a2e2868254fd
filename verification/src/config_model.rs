//! The configuration of one application: the form in which it is written
//! down, with every section optional, and the form the launcher works from,
//! with every section present.

use vstd::prelude::*;
use vstd::string::*;
use crate::paths::{is_absolute_path, joined_path, path_is_absolute, path_join, CONFIG_SUFFIX};
use crate::tag::{is_app_tag, is_valid_app_tag};
use crate::text::{str_eq, texts};

verus! {

/// The name of the configuration directory inside the user's local
/// configuration directory.
pub const CONFIG_DIR_NAME: &'static str = ".wexe";

/// The value of the debug setting that switches diagnostics on.
pub const DEBUG_ON: &'static str = "1";

/// The start of the message for a target that is not an absolute path.
pub const TARGET_NOT_ABSOLUTE: &'static str = "Target executable path must be absolute: ";

/// The directories the tools work in.
pub struct WexeConfigFolders {
    /// Where the configuration files and the stubs are kept.
    pub wexe_cfg_dir: String,
}

/// Elements to put before and after some list, each part optional.
pub struct ConfigArgs {
    pub prepend: Option<Vec<String>>,
    pub append: Option<Vec<String>>,
}

/// The environment section of a configuration as written.
pub struct ConfigEnv {
    /// Variables to set; an empty value deletes the variable.
    pub set: Option<Vec<(String, String)>>,
    /// Per variable, segments to put before and after its path list.
    pub pathlike: Option<Vec<(String, ConfigArgs)>>,
}

/// A configuration as written: only the target is required.
pub struct WexeAppConfig {
    pub target: String,
    pub env: Option<ConfigEnv>,
    pub args: Option<ConfigArgs>,
}

/// Elements to put before and after some list.
pub struct ListOps {
    pub prepend: Vec<String>,
    pub append: Vec<String>,
}

/// A configuration with every section present.
pub struct WexeApp {
    /// The executable to run: an absolute path.
    pub target: String,
    /// Arguments to put before and after those of the user.
    pub args: ListOps,
    /// Variables to set; an empty value deletes the variable.
    pub env_set: Vec<(String, String)>,
    /// Per variable, segments to put before and after its path list.
    pub env_pathlike: Vec<(String, ListOps)>,
}

pub struct ConfigArgsView {
    pub prepend: Option<Seq<Seq<char>>>,
    pub append: Option<Seq<Seq<char>>>,
}

pub struct ConfigEnvView {
    pub set: Option<Seq<(Seq<char>, Seq<char>)>>,
    pub pathlike: Option<Seq<(Seq<char>, ConfigArgsView)>>,
}

pub struct WexeAppConfigView {
    pub target: Seq<char>,
    pub env: Option<ConfigEnvView>,
    pub args: Option<ConfigArgsView>,
}

pub struct ListOpsView {
    pub prepend: Seq<Seq<char>>,
    pub append: Seq<Seq<char>>,
}

pub struct WexeAppView {
    pub target: Seq<char>,
    pub args: ListOpsView,
    pub env_set: Seq<(Seq<char>, Seq<char>)>,
    pub env_pathlike: Seq<(Seq<char>, ListOpsView)>,
}

/// An optional list of strings as characters.
pub open spec fn opt_texts(v: Option<Vec<String>>) -> Option<Seq<Seq<char>>> {
    match v {
        Some(list) => Some(texts(list@)),
        None => None,
    }
}

/// Pairs of strings as characters.
pub open spec fn pair_texts(v: Seq<(String, String)>) -> Seq<(Seq<char>, Seq<char>)> {
    v.map_values(|p: (String, String)| (p.0@, p.1@))
}

/// Named lists as written, as characters.
pub open spec fn written_list_texts(v: Seq<(String, ConfigArgs)>) -> Seq<
    (Seq<char>, ConfigArgsView),
> {
    v.map_values(|p: (String, ConfigArgs)| (p.0@, p.1@))
}

/// Named lists, as characters.
pub open spec fn list_texts(v: Seq<(String, ListOps)>) -> Seq<(Seq<char>, ListOpsView)> {
    v.map_values(|p: (String, ListOps)| (p.0@, p.1@))
}

/// Each named list with both parts present.
pub open spec fn all_list_ops(v: Seq<(Seq<char>, ConfigArgsView)>) -> Seq<
    (Seq<char>, ListOpsView),
> {
    v.map_values(|p: (Seq<char>, ConfigArgsView)| (p.0, list_ops(p.1)))
}

impl View for ConfigArgs {
    type V = ConfigArgsView;

    open spec fn view(&self) -> ConfigArgsView {
        ConfigArgsView { prepend: opt_texts(self.prepend), append: opt_texts(self.append) }
    }
}

impl View for ConfigEnv {
    type V = ConfigEnvView;

    open spec fn view(&self) -> ConfigEnvView {
        ConfigEnvView {
            set: match self.set {
                Some(list) => Some(pair_texts(list@)),
                None => None,
            },
            pathlike: match self.pathlike {
                Some(list) => Some(written_list_texts(list@)),
                None => None,
            },
        }
    }
}

impl View for WexeAppConfig {
    type V = WexeAppConfigView;

    open spec fn view(&self) -> WexeAppConfigView {
        WexeAppConfigView {
            target: self.target@,
            env: match self.env {
                Some(env) => Some(env@),
                None => None,
            },
            args: match self.args {
                Some(args) => Some(args@),
                None => None,
            },
        }
    }
}

impl View for ListOps {
    type V = ListOpsView;

    open spec fn view(&self) -> ListOpsView {
        ListOpsView { prepend: texts(self.prepend@), append: texts(self.append@) }
    }
}

impl View for WexeApp {
    type V = WexeAppView;

    open spec fn view(&self) -> WexeAppView {
        WexeAppView {
            target: self.target@,
            args: self.args@,
            env_set: pair_texts(self.env_set@),
            env_pathlike: list_texts(self.env_pathlike@),
        }
    }
}

/// No name occurs twice among the first components.
pub open spec fn distinct_names<T>(list: Seq<(Seq<char>, T)>) -> bool {
    forall|i: int, j: int|
        0 <= i < j < list.len() ==> (#[trigger] list[i]).0 != (#[trigger] list[j]).0
}

impl WexeAppView {
    /// Both environment sections are mappings: no variable occurs twice in
    /// either.
    pub open spec fn wf(self) -> bool {
        distinct_names(self.env_set) && distinct_names(self.env_pathlike)
    }
}

impl WexeAppConfigView {
    /// Both environment sections, where present, are mappings.
    pub open spec fn wf(self) -> bool {
        self.env matches Some(env) ==> {
            &&& env.set matches Some(set) ==> distinct_names(set)
            &&& env.pathlike matches Some(pathlike) ==> distinct_names(pathlike)
        }
    }
}

/// A list with both parts present: an absent part is empty.
pub open spec fn list_ops(args: ConfigArgsView) -> ListOpsView {
    ListOpsView {
        prepend: match args.prepend {
            Some(list) => list,
            None => Seq::empty(),
        },
        append: match args.append {
            Some(list) => list,
            None => Seq::empty(),
        },
    }
}

/// The configuration with every absent section filled in as empty.
pub open spec fn with_defaults(cfg: WexeAppConfigView) -> WexeAppView {
    WexeAppView {
        target: cfg.target,
        args: match cfg.args {
            Some(args) => list_ops(args),
            None => ListOpsView { prepend: Seq::empty(), append: Seq::empty() },
        },
        env_set: match cfg.env {
            Some(ConfigEnvView { set: Some(set), .. }) => set,
            _ => Seq::empty(),
        },
        env_pathlike: match cfg.env {
            Some(ConfigEnvView { pathlike: Some(pathlike), .. }) => all_list_ops(pathlike),
            _ => Seq::empty(),
        },
    }
}

/// A list written with both parts present.
pub open spec fn written_list(ops: ListOpsView) -> ConfigArgsView {
    ConfigArgsView { prepend: Some(ops.prepend), append: Some(ops.append) }
}

/// Each named list written with both parts present.
pub open spec fn all_written(v: Seq<(Seq<char>, ListOpsView)>) -> Seq<
    (Seq<char>, ConfigArgsView),
> {
    v.map_values(|p: (Seq<char>, ListOpsView)| (p.0, written_list(p.1)))
}

/// The written form of a configuration in which every section is present.
pub open spec fn written_in_full(app: WexeAppView) -> WexeAppConfigView {
    WexeAppConfigView {
        target: app.target,
        env: Some(
            ConfigEnvView {
                set: Some(app.env_set),
                pathlike: Some(all_written(app.env_pathlike)),
            },
        ),
        args: Some(written_list(app.args)),
    }
}

/// Why a configuration cannot be used.
pub enum ConfigError {
    /// The target is not an absolute path.
    TargetNotAbsolute { target: String },
}

/// Why no configuration could be loaded from a file.
pub enum LoadError {
    /// The file could not be read; the system's message.
    Unreadable(String),
    /// The text is not a configuration; the parser's message.
    Malformed(String),
    /// The configuration was read and is not valid.
    Invalid(ConfigError),
}

/// What resolving a written configuration gives: the configuration with its
/// defaults where the target is absolute, the one validation error where it
/// is not.
pub open spec fn resolved(cfg: WexeAppConfigView) -> Result<WexeAppView, Seq<char>> {
    if is_absolute_path(cfg.target) {
        Ok(with_defaults(cfg))
    } else {
        Err(cfg.target)
    }
}

/// The message of a load error.
pub open spec fn load_error_text(e: LoadError) -> Seq<char> {
    match e {
        LoadError::Unreadable(message) => message@,
        LoadError::Malformed(message) => message@,
        LoadError::Invalid(ConfigError::TargetNotAbsolute { target }) => TARGET_NOT_ABSOLUTE@
            + target@,
    }
}

/// Whether diagnostics are on: switched on by the setting `1`, off by any
/// other setting, and on without a setting in a development build only.
pub open spec fn debug_enabled(setting: Option<Seq<char>>, development_build: bool) -> bool {
    match setting {
        Some(value) => value == DEBUG_ON@,
        None => development_build,
    }
}

fn clone_strings(list: &Vec<String>) -> (r: Vec<String>)
    ensures
        r@ == list@,
{
    let mut r: Vec<String> = Vec::new();
    let mut i: usize = 0;
    while i < list.len()
        invariant
            i <= list.len(),
            r@ == list@.take(i as int),
        decreases list.len() - i,
    {
        r.push(list[i].clone());
        assert(list@.take(i as int).push(list@[i as int]) =~= list@.take(i + 1));
        i = i + 1;
    }
    assert(list@.take(list.len() as int) =~= list@);
    r
}

fn strings_or_empty(list: &Option<Vec<String>>) -> (r: Vec<String>)
    ensures
        texts(r@) == match opt_texts(*list) {
            Some(s) => s,
            None => Seq::empty(),
        },
{
    match list {
        Some(v) => clone_strings(v),
        None => {
            let r: Vec<String> = Vec::new();
            assert(texts(r@) =~= Seq::empty());
            r
        },
    }
}

impl ConfigArgs {
    /// Both parts present: an absent part becomes empty.
    pub fn to_list_ops(&self) -> (r: ListOps)
        ensures
            r@ == list_ops(self@),
    {
        ListOps {
            prepend: strings_or_empty(&self.prepend),
            append: strings_or_empty(&self.append),
        }
    }
}

impl ConfigError {
    /// The message for this error.
    pub fn message(&self) -> (r: String)
        ensures
            r@ == load_error_text(LoadError::Invalid(*self)),
    {
        match self {
            ConfigError::TargetNotAbsolute { target } => {
                let mut text = TARGET_NOT_ABSOLUTE.to_owned();
                text.append(target.as_str());
                text
            },
        }
    }
}

impl LoadError {
    /// The message for this error.
    pub fn message(&self) -> (r: String)
        ensures
            r@ == load_error_text(*self),
    {
        match self {
            LoadError::Unreadable(message) => message.clone(),
            LoadError::Malformed(message) => message.clone(),
            LoadError::Invalid(e) => e.message(),
        }
    }
}

impl WexeAppConfig {
    /// The configuration with every absent section filled in as empty.
    pub fn with_defaults(&self) -> (r: WexeApp)
        ensures
            r@ == with_defaults(self@),
            self@.wf() ==> r@.wf(),
    {
        let args = match &self.args {
            Some(a) => a.to_list_ops(),
            None => {
                let empty = ListOps { prepend: Vec::new(), append: Vec::new() };
                assert(texts(empty.prepend@) =~= Seq::empty());
                assert(texts(empty.append@) =~= Seq::empty());
                empty
            },
        };
        let mut env_set: Vec<(String, String)> = Vec::new();
        let mut env_pathlike: Vec<(String, ListOps)> = Vec::new();
        let ghost want = with_defaults(self@);
        assert(pair_texts(env_set@) =~= Seq::empty());
        assert(list_texts(env_pathlike@) =~= Seq::empty());
        if let Some(env) = &self.env {
            if let Some(set) = &env.set {
                let mut i: usize = 0;
                while i < set.len()
                    invariant
                        i <= set.len(),
                        pair_texts(env_set@) == pair_texts(set@).take(i as int),
                    decreases set.len() - i,
                {
                    let ghost before = env_set@;
                    let name = set[i].0.clone();
                    let value = set[i].1.clone();
                    env_set.push((name, value));
                    proof {
                        assert(env_set@ == before.push((name, value)));
                        assert(pair_texts(before).len() == i);
                        assert(pair_texts(set@)[i as int] == (name@, value@));
                        assert forall|j: int| 0 <= j < i implies pair_texts(env_set@)[j]
                            == pair_texts(set@)[j] by {
                            assert(pair_texts(before)[j] == pair_texts(set@).take(i as int)[j]);
                        }
                        assert(pair_texts(env_set@) =~= pair_texts(set@).take(i + 1));
                    }
                    i = i + 1;
                }
                assert(pair_texts(set@).take(set.len() as int) =~= pair_texts(set@));
            }
            if let Some(pathlike) = &env.pathlike {
                let ghost to = all_list_ops(written_list_texts(pathlike@));
                let mut i: usize = 0;
                while i < pathlike.len()
                    invariant
                        i <= pathlike.len(),
                        to == all_list_ops(written_list_texts(pathlike@)),
                        list_texts(env_pathlike@) == to.take(i as int),
                    decreases pathlike.len() - i,
                {
                    let ghost before = env_pathlike@;
                    let name = pathlike[i].0.clone();
                    let ops = pathlike[i].1.to_list_ops();
                    env_pathlike.push((name, ops));
                    proof {
                        assert(env_pathlike@ == before.push((name, ops)));
                        assert(list_texts(before).len() == i);
                        assert(to[i as int] == (name@, ops@));
                        assert forall|j: int| 0 <= j < i implies list_texts(env_pathlike@)[j]
                            == to[j] by {
                            assert(list_texts(before)[j] == to.take(i as int)[j]);
                        }
                        assert(list_texts(env_pathlike@) =~= to.take(i + 1));
                    }
                    i = i + 1;
                }
                assert(to.take(pathlike.len() as int) =~= to);
            }
        }
        let app = WexeApp { target: self.target.clone(), args, env_set, env_pathlike };
        proof {
            assert(app@.env_set == want.env_set);
            assert(app@.env_pathlike == want.env_pathlike);
            assert(app@ == want);
        }
        app
    }

    /// Fills every absent section in as empty and checks that the target is
    /// an absolute path. Whether the target exists is not looked at.
    pub fn resolve(&self) -> (r: Result<WexeApp, ConfigError>)
        ensures
            match r {
                Ok(app) => resolved(self@) == Ok::<WexeAppView, Seq<char>>(app@),
                Err(ConfigError::TargetNotAbsolute { target }) => resolved(self@) == Err::<
                    WexeAppView,
                    Seq<char>,
                >(target@),
            },
            self@.wf() && r is Ok ==> r->Ok_0@.wf(),
    {
        if !path_is_absolute(self.target.as_str()) {
            return Err(ConfigError::TargetNotAbsolute { target: self.target.clone() });
        }
        Ok(self.with_defaults())
    }
}

/// Loading as one step: what reading and parsing a file gave, resolved. A
/// failure to read or parse is handed on as it came.
pub fn read_config_file(parsed: Result<WexeAppConfig, LoadError>) -> (r: Result<
    WexeApp,
    LoadError,
>)
    ensures
        match (parsed, r) {
            (Err(e), Err(f)) => f == e,
            (Ok(cfg), Ok(app)) => resolved(cfg@) == Ok::<WexeAppView, Seq<char>>(app@),
            (Ok(cfg), Err(LoadError::Invalid(ConfigError::TargetNotAbsolute { target }))) => {
                resolved(cfg@) == Err::<WexeAppView, Seq<char>>(target@)
            },
            _ => false,
        },
{
    match parsed {
        Err(e) => Err(e),
        Ok(cfg) => match cfg.resolve() {
            Ok(app) => Ok(app),
            Err(e) => Err(LoadError::Invalid(e)),
        },
    }
}

/// The configuration of the management tool itself, which no file holds: the
/// tool at the given path, with nothing added.
pub fn wexecfg_config_file(wexecfg_path: &str) -> (r: WexeApp)
    ensures
        r@ == (WexeAppView {
            target: wexecfg_path@,
            args: ListOpsView { prepend: Seq::empty(), append: Seq::empty() },
            env_set: Seq::empty(),
            env_pathlike: Seq::empty(),
        }),
{
    let app = WexeApp {
        target: wexecfg_path.to_owned(),
        args: ListOps { prepend: Vec::new(), append: Vec::new() },
        env_set: Vec::new(),
        env_pathlike: Vec::new(),
    };
    assert(texts(app.args.prepend@) =~= Seq::empty());
    assert(texts(app.args.append@) =~= Seq::empty());
    assert(pair_texts(app.env_set@) =~= Seq::empty());
    assert(list_texts(app.env_pathlike@) =~= Seq::empty());
    app
}

/// Whether diagnostics are on, from the debug setting of the environment, if
/// there is one, and the kind of build.
pub fn wexe_dbg(setting: Option<&str>, development_build: bool) -> (r: bool)
    ensures
        r == debug_enabled(
            match setting {
                Some(value) => Some(value@),
                None => None,
            },
            development_build,
        ),
{
    match setting {
        Some(value) => str_eq(value, DEBUG_ON),
        None => development_build,
    }
}

/// `dirs::config_local_dir`: the user's local configuration directory, where
/// the system has one and its path is valid text. It depends on the
/// environment of the process, so nothing is claimed of it.
#[verifier::external_body]
fn config_local_dir() -> (r: Option<String>) {
    dirs::config_local_dir().and_then(|dir| dir.to_str().map(|text| text.to_string()))
}

impl WexeConfigFolders {
    /// The folders inside the given local configuration directory.
    pub fn within(local_config_dir: &str) -> (r: WexeConfigFolders)
        ensures
            r.wexe_cfg_dir@ == joined_path(local_config_dir@, CONFIG_DIR_NAME@),
    {
        WexeConfigFolders { wexe_cfg_dir: path_join(local_config_dir, CONFIG_DIR_NAME) }
    }

    /// The folders of the current user, where the system names a local
    /// configuration directory.
    pub fn locate() -> (r: Option<WexeConfigFolders>)
        ensures
            r matches Some(folders) ==> exists|dir: Seq<char>|
                folders.wexe_cfg_dir@ == #[trigger] joined_path(dir, CONFIG_DIR_NAME@),
    {
        match config_local_dir() {
            Some(dir) => Some(WexeConfigFolders::within(dir.as_str())),
            None => None,
        }
    }
}

/// The directory in which configuration files and stubs are kept.
pub fn get_wexe_cfg_dir(folders: &WexeConfigFolders) -> (r: String)
    ensures
        r@ == folders.wexe_cfg_dir@,
{
    folders.wexe_cfg_dir.clone()
}

/// The two places where the configuration file of a tag may stand.
pub struct ConfigCandidates {
    /// Beside the running launcher: a file here comes first.
    pub local: String,
    /// In the configuration directory.
    pub central: String,
}

/// The places where the configuration file of a tag may stand, in the order
/// in which they are looked at: beside the running launcher, then in the
/// configuration directory. `None` for a tag that is malformed.
pub fn config_candidates(tag: &str, launcher_folder: &str, folders: &WexeConfigFolders) -> (r:
    Option<ConfigCandidates>)
    ensures
        match r {
            Some(places) => {
                &&& is_app_tag(tag@)
                &&& places.local@ == joined_path(launcher_folder@, tag@ + CONFIG_SUFFIX@)
                &&& places.central@ == joined_path(folders.wexe_cfg_dir@, tag@ + CONFIG_SUFFIX@)
            },
            None => !is_app_tag(tag@),
        },
{
    if !is_valid_app_tag(tag) {
        return None;
    }
    let mut name = tag.to_owned();
    name.append(CONFIG_SUFFIX);
    Some(
        ConfigCandidates {
            local: path_join(launcher_folder, name.as_str()),
            central: path_join(folders.wexe_cfg_dir.as_str(), name.as_str()),
        },
    )
}

/// The configuration file to use: the one beside the launcher where it
/// exists, else the one in the configuration directory where that exists,
/// else none.
pub fn get_config_file(places: ConfigCandidates, local_exists: bool, central_exists: bool) -> (r:
    Option<String>)
    ensures
        r == if local_exists {
            Some(places.local)
        } else if central_exists {
            Some(places.central)
        } else {
            None
        },
{
    if local_exists {
        Some(places.local)
    } else if central_exists {
        Some(places.central)
    } else {
        None
    }
}

/// Resolving a configuration that was written in full gives it back: for
/// every configuration with an absolute target, writing each section out and
/// resolving what was written is the identity.
pub proof fn lemma_resolve_written_in_full(app: WexeAppView)
    requires
        is_absolute_path(app.target),
    ensures
        resolved(written_in_full(app)) == Ok::<WexeAppView, Seq<char>>(app),
{
    let cfg = written_in_full(app);
    let got = with_defaults(cfg);
    assert(got.env_pathlike =~= app.env_pathlike);
    assert(got.args == app.args);
}

/// Leaving a section out and writing it down empty resolve alike.
pub proof fn lemma_absent_is_empty(cfg: WexeAppConfigView)
    ensures
        with_defaults(cfg) == with_defaults(written_in_full(with_defaults(cfg))),
{
    let app = with_defaults(cfg);
    let got = with_defaults(written_in_full(app));
    assert(got.env_pathlike =~= app.env_pathlike);
    assert(got.args == app.args);
}

} // verus!
