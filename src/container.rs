//! The lifecycle engine: the rules of create, start, stop and remove over
//! the config store, and the plan of outside work that each one leaves to
//! its caller (writing records, launching and signalling processes).
use vstd::prelude::*;
use crate::codec::views;
use crate::config::{
    status_word,
    copy_opt, opt_view, record_of, runtime_command, runtime_executable, tag_name, ConfigModel,
    ContainerConfig, RuntimeTag, Status,
};
use crate::error::DockError;
use crate::storage::{has_name, index_of, log_path, root_path, saved, StoreModel, Storage};

verus! {

/// The config that `create` makes.
pub open spec fn new_config(
    id: Seq<char>,
    name: Seq<char>,
    script: Seq<char>,
    tag: RuntimeTag,
) -> ConfigModel {
    ConfigModel {
        id,
        name,
        script,
        python_version: tag_name(tag),
        status: Status::Stopped,
        port_mapping: None,
    }
}

/// Why `create` is refused, if it is.
pub open spec fn create_refusal(
    s: Seq<ConfigModel>,
    name: Seq<char>,
    script_exists: bool,
    runtime: Option<RuntimeTag>,
) -> Option<DockError> {
    if has_name(s, name) {
        Some(DockError::AlreadyExists)
    } else if !script_exists {
        Some(DockError::ScriptNotFound)
    } else if runtime is None {
        Some(DockError::DetectionError)
    } else {
        None
    }
}

/// The configs after `create`, or its error.
pub open spec fn create_outcome(
    s: Seq<ConfigModel>,
    name: Seq<char>,
    script: Seq<char>,
    script_exists: bool,
    runtime: Option<RuntimeTag>,
    id: Seq<char>,
) -> Result<Seq<ConfigModel>, DockError> {
    match create_refusal(s, name, script_exists, runtime) {
        Some(e) => Err(e),
        None => Ok(s.push(new_config(id, name, script, runtime->Some_0))),
    }
}

/// The configs after `start`, or its error. `script_present` says whether
/// the stored script still exists.
pub open spec fn start_outcome(
    s: Seq<ConfigModel>,
    name: Seq<char>,
    port: Option<Seq<char>>,
    script_present: bool,
) -> Result<Seq<ConfigModel>, DockError> {
    if !has_name(s, name) {
        Err(DockError::NotFound)
    } else if s[index_of(s, name)].status == Status::Running {
        Err(DockError::AlreadyRunning)
    } else if !script_present {
        Err(DockError::ScriptNotFound)
    } else {
        let c = s[index_of(s, name)];
        Ok(s.update(index_of(s, name), ConfigModel { status: Status::Running, port_mapping: port, ..c }))
    }
}

/// The configs after `stop`, or its error.
pub open spec fn stop_outcome(s: Seq<ConfigModel>, name: Seq<char>) -> Result<Seq<ConfigModel>, DockError> {
    if !has_name(s, name) {
        Err(DockError::NotFound)
    } else if s[index_of(s, name)].status == Status::Stopped {
        Err(DockError::AlreadyStopped)
    } else {
        let c = s[index_of(s, name)];
        Ok(s.update(index_of(s, name), ConfigModel { status: Status::Stopped, ..c }))
    }
}

/// The configs after `remove`, or its error.
pub open spec fn remove_outcome(s: Seq<ConfigModel>, name: Seq<char>) -> Result<Seq<ConfigModel>, DockError> {
    if !has_name(s, name) {
        Err(DockError::NotFound)
    } else if s[index_of(s, name)].status == Status::Running {
        Err(DockError::CannotRemoveRunning)
    } else {
        Ok(s.remove(index_of(s, name)))
    }
}

/// The views of a list of environment entries.
pub open spec fn env_views(v: Seq<(String, String)>) -> Seq<(Seq<char>, Seq<char>)> {
    v.map_values(|e: (String, String)| e@)
}

/// The environment variable that tags a container's processes.
pub open spec fn tag_var() -> Seq<char> {
    "DOCK_CONTAINER"@
}

/// The environment of a launched container: the port mapping hint where
/// one was given, then the container's tag.
pub open spec fn launch_env(name: Seq<char>, port: Option<Seq<char>>) -> Seq<(Seq<char>, Seq<char>)> {
    match port {
        Some(p) => seq![("DOCK_PORT_MAP"@, p), (tag_var(), name)],
        None => seq![(tag_var(), name)],
    }
}

/// What to persist after `create`, and where the new root directory goes.
pub struct CreatePlan {
    pub record: String,
    pub root: String,
}

/// What to persist after `start`, then the sandboxed command to launch with
/// its environment, and the log file that takes its output.
pub struct LaunchPlan {
    pub record: String,
    pub program: String,
    pub args: Vec<String>,
    pub env: Vec<(String, String)>,
    pub log: String,
}

/// What to persist after `stop`, then the command that signals every process
/// carrying the container's tag.
pub struct StopPlan {
    pub record: String,
    pub program: String,
    pub args: Vec<String>,
}

/// What to delete after `remove`: the record of `name`, the root tree and
/// the log file.
pub struct RemovePlan {
    pub name: String,
    pub root: String,
    pub log: String,
}

/// Relies on uuid::Uuid::new_v4 and its hyphenated text form, which is 36
/// characters long.
#[verifier::external_body]
fn fresh_id() -> (r: String)
    ensures
        r@.len() == 36,
{
    uuid::Uuid::new_v4().to_string()
}

/// `n` spaces.
pub open spec fn spaces(n: nat) -> Seq<char> {
    Seq::new(n, |_i: int| ' ')
}

/// `s` padded on the right with spaces to at least `w` characters.
pub open spec fn pad(s: Seq<char>, w: nat) -> Seq<char> {
    if s.len() >= w {
        s
    } else {
        s + spaces((w - s.len()) as nat)
    }
}

/// A row of the container table: four columns of widths 20, 15, 20, 15.
pub open spec fn table_row(a: Seq<char>, b: Seq<char>, c: Seq<char>, d: Seq<char>) -> Seq<char> {
    pad(a, 20) + " "@ + pad(b, 15) + " "@ + pad(c, 20) + " "@ + pad(d, 15)
}

/// The table row of one container; a missing port mapping shows as `-`.
pub open spec fn config_row(c: ConfigModel) -> Seq<char> {
    table_row(
        c.name,
        status_word(c.status),
        c.python_version,
        match c.port_mapping {
            Some(p) => p,
            None => "-"@,
        },
    )
}

/// The rule under the table's header.
pub open spec fn rule_line() -> Seq<char> {
    Seq::new(70, |_i: int| '-')
}

/// The lines that `list` shows: a note where there are no containers, else a
/// header, a rule, and one row per container in store order.
pub open spec fn list_lines(s: Seq<ConfigModel>) -> Seq<Seq<char>> {
    if s.len() == 0 {
        seq!["No containers found"@]
    } else {
        seq![table_row("NAME"@, "STATUS"@, "PYTHON"@, "PORT"@), rule_line()] + s.map_values(
            |c: ConfigModel| config_row(c),
        )
    }
}

/// The environment of an interactive shell in a container.
pub open spec fn enter_env(name: Seq<char>, root: Seq<char>) -> Seq<(Seq<char>, Seq<char>)> {
    seq![(tag_var(), name), ("DOCK_ROOT"@, root)]
}

/// The shell to run: bash where it is available, else sh.
pub open spec fn shell_for(bash_available: bool) -> Seq<char> {
    if bash_available {
        "bash"@
    } else {
        "sh"@
    }
}

/// What to run for `enter`: a shell in the container's root directory.
pub struct EnterPlan {
    pub shell: String,
    pub dir: String,
    pub env: Vec<(String, String)>,
}

/// The result of `logs`: the log's text, or an explicit note that the
/// container has none yet.
pub enum LogView {
    NoLogs,
    Text(String),
}

/// Appends `s` padded to `w` characters.
fn push_padded(out: &mut String, s: &str, w: usize)
    ensures
        final(out)@ == old(out)@ + pad(s@, w as nat),
{
    out.append(s);
    let n = s.unicode_len();
    let mut k: usize = n;
    proof {
        assert(spaces(0) =~= Seq::<char>::empty());
        assert(out@ =~= old(out)@ + s@ + spaces(0));
    }
    while k < w
        invariant
            n == s@.len(),
            n <= k <= w || (n > w && k == n),
            out@ == old(out)@ + s@ + spaces((k - n) as nat),
        decreases w - k,
    {
        out.append(" ");
        proof {
            reveal_strlit(" ");
            assert(spaces((k - n) as nat).push(' ') =~= spaces((k + 1 - n) as nat));
            assert(out@ =~= old(out)@ + s@ + spaces((k + 1 - n) as nat));
        }
        k = k + 1;
    }
    proof {
        if n >= w {
            assert(out@ =~= old(out)@ + s@);
        } else {
            assert(out@ =~= old(out)@ + pad(s@, w as nat));
        }
    }
}

/// One table row as text.
fn render_row(a: &str, b: &str, c: &str, d: &str) -> (r: String)
    ensures
        r@ == table_row(a@, b@, c@, d@),
{
    let mut out = String::new();
    push_padded(&mut out, a, 20);
    out.append(" ");
    push_padded(&mut out, b, 15);
    out.append(" ");
    push_padded(&mut out, c, 20);
    out.append(" ");
    push_padded(&mut out, d, 15);
    proof {
        assert(out@ =~= table_row(a@, b@, c@, d@));
    }
    out
}

/// A fresh string holding `s`.
pub(crate) fn text(s: &str) -> (r: String)
    ensures
        r@ == s@,
{
    String::from_str(s)
}

/// The lifecycle engine over a config store.
pub struct ContainerManager {
    storage: Storage,
}

impl View for ContainerManager {
    type V = StoreModel;

    closed spec fn view(&self) -> StoreModel {
        self.storage@
    }
}

impl ContainerManager {
    pub open spec fn wf(&self) -> bool {
        crate::storage::names_unique(self@.configs)
    }

    /// An engine over `storage`.
    pub fn new(storage: Storage) -> (r: ContainerManager)
        requires
            storage.wf(),
        ensures
            r.wf(),
            r@ == storage@,
    {
        ContainerManager { storage }
    }

    /// The store this engine works on.
    pub fn storage(&self) -> (r: &Storage)
        ensures
            r@ == self@,
            self.wf() ==> r.wf(),
    {
        &self.storage
    }

    /// Creates a container with the given id: refused where the name is
    /// taken, the script is missing, or its runtime could not be detected.
    pub fn create_with_id(
        &mut self,
        name: &str,
        script: &str,
        script_exists: bool,
        runtime: Option<RuntimeTag>,
        id: String,
    ) -> (r: Result<CreatePlan, DockError>)
        requires
            old(self).wf(),
        ensures
            final(self).wf(),
            final(self)@.base == old(self)@.base,
            r is Ok <==> create_outcome(old(self)@.configs, name@, script@, script_exists, runtime, id@) is Ok,
            r matches Ok(p) ==> {
                &&& create_outcome(old(self)@.configs, name@, script@, script_exists, runtime, id@)
                    == Ok::<Seq<ConfigModel>, DockError>(final(self)@.configs)
                &&& p.record@ == record_of(final(self)@.configs.last())
                &&& p.root@ == root_path(old(self)@.base, name@)
            },
            r matches Err(e) ==> create_outcome(old(self)@.configs, name@, script@, script_exists, runtime, id@)
                == Err::<Seq<ConfigModel>, DockError>(e) && final(self)@ == old(self)@,
    {
        if self.storage.container_exists(name) {
            return Err(DockError::AlreadyExists);
        }
        if !script_exists {
            return Err(DockError::ScriptNotFound);
        }
        let tag = match runtime {
            Some(t) => t,
            None => return Err(DockError::DetectionError),
        };
        let config = ContainerConfig {
            id,
            name: text(name),
            script: text(script),
            python_version: text(tag.name()),
            status: Status::Stopped,
            port_mapping: None,
        };
        let record = config.to_record();
        proof {
            assert(config@ == new_config(id@, name@, script@, tag));
        }
        self.storage.save_config(config);
        let root = self.storage.filesystem_path(name);
        Ok(CreatePlan { record, root })
    }

    /// Creates a container under a fresh random id; see `create_with_id`.
    pub fn create(
        &mut self,
        name: &str,
        script: &str,
        script_exists: bool,
        runtime: Option<RuntimeTag>,
    ) -> (r: Result<CreatePlan, DockError>)
        requires
            old(self).wf(),
        ensures
            final(self).wf(),
            final(self)@.base == old(self)@.base,
            r is Ok <==> create_refusal(old(self)@.configs, name@, script_exists, runtime) is None,
            r matches Ok(p) ==> {
                let id = final(self)@.configs.last().id;
                &&& id.len() == 36
                &&& create_outcome(old(self)@.configs, name@, script@, script_exists, runtime, id)
                    == Ok::<Seq<ConfigModel>, DockError>(final(self)@.configs)
                &&& p.record@ == record_of(final(self)@.configs.last())
                &&& p.root@ == root_path(old(self)@.base, name@)
            },
            r matches Err(e) ==> create_refusal(old(self)@.configs, name@, script_exists, runtime)
                == Some(e) && final(self)@ == old(self)@,
    {
        let id = fresh_id();
        self.create_with_id(name, script, script_exists, runtime, id)
    }

    /// Marks a stopped container running with the given port mapping, and
    /// plans its launch. Refused where the container is missing, already
    /// running, or its script is gone (`script_present` is false).
    pub fn start(&mut self, name: &str, port: Option<String>, script_present: bool) -> (r: Result<
        LaunchPlan,
        DockError,
    >)
        requires
            old(self).wf(),
        ensures
            final(self).wf(),
            final(self)@.base == old(self)@.base,
            r is Ok <==> start_outcome(old(self)@.configs, name@, opt_view(port), script_present) is Ok,
            r matches Ok(p) ==> {
                let c = final(self)@.configs[index_of(old(self)@.configs, name@)];
                &&& start_outcome(old(self)@.configs, name@, opt_view(port), script_present)
                    == Ok::<Seq<ConfigModel>, DockError>(final(self)@.configs)
                &&& p.record@ == record_of(c)
                &&& p.program@ == "proot"@
                &&& views(p.args@) == seq![
                    "-r"@,
                    root_path(old(self)@.base, name@),
                    runtime_command(c.python_version),
                    c.script,
                ]
                &&& env_views(p.env@) == launch_env(name@, opt_view(port))
                &&& p.log@ == log_path(old(self)@.base, name@)
            },
            r matches Err(e) ==> start_outcome(old(self)@.configs, name@, opt_view(port), script_present)
                == Err::<Seq<ConfigModel>, DockError>(e) && final(self)@ == old(self)@,
    {
        let mut config = match self.storage.load_config(name) {
            Ok(c) => c,
            Err(e) => return Err(e),
        };
        if config.status == Status::Running {
            return Err(DockError::AlreadyRunning);
        }
        if !script_present {
            return Err(DockError::ScriptNotFound);
        }
        config.status = Status::Running;
        config.port_mapping = copy_opt(&port);
        let record = config.to_record();
        let ghost cv = config@;
        let command = runtime_executable(config.python_version.as_str());
        let mut args: Vec<String> = Vec::new();
        args.push(text("-r"));
        args.push(self.storage.filesystem_path(name));
        args.push(text(command));
        args.push(config.script.clone());
        let mut env: Vec<(String, String)> = Vec::new();
        match port {
            Some(p) => env.push((text("DOCK_PORT_MAP"), p)),
            None => {},
        }
        env.push((text("DOCK_CONTAINER"), text(name)));
        let log = self.storage.logs_path(name);
        proof {
            let s = old(self)@.configs;
            let i = index_of(s, name@);
            assert(has_name(s, cv.name));
            assert(index_of(s, cv.name) == i);
            crate::storage::lemma_index_of(s, i);
        }
        self.storage.save_config(config);
        proof {
            assert(views(args@) =~= seq![
                "-r"@,
                root_path(old(self)@.base, name@),
                runtime_command(cv.python_version),
                cv.script,
            ]);
            assert(env_views(env@) =~= launch_env(name@, opt_view(port)));
        }
        Ok(LaunchPlan { record, program: text("proot"), args, env, log })
    }

    /// Marks a running container stopped, and plans the signal to every
    /// process carrying its tag. Refused where it is missing or already
    /// stopped.
    pub fn stop(&mut self, name: &str) -> (r: Result<StopPlan, DockError>)
        requires
            old(self).wf(),
        ensures
            final(self).wf(),
            final(self)@.base == old(self)@.base,
            r is Ok <==> stop_outcome(old(self)@.configs, name@) is Ok,
            r matches Ok(p) ==> {
                &&& stop_outcome(old(self)@.configs, name@) == Ok::<Seq<ConfigModel>, DockError>(final(self)@.configs)
                &&& p.record@ == record_of(final(self)@.configs[index_of(old(self)@.configs, name@)])
                &&& p.program@ == "pkill"@
                &&& views(p.args@) == seq!["-f"@, tag_var() + "="@ + name@]
            },
            r matches Err(e) ==> stop_outcome(old(self)@.configs, name@) == Err::<
                Seq<ConfigModel>,
                DockError,
            >(e) && final(self)@ == old(self)@,
    {
        let mut config = match self.storage.load_config(name) {
            Ok(c) => c,
            Err(e) => return Err(e),
        };
        if config.status == Status::Stopped {
            return Err(DockError::AlreadyStopped);
        }
        config.status = Status::Stopped;
        let record = config.to_record();
        let ghost cv = config@;
        proof {
            let s = old(self)@.configs;
            let i = index_of(s, name@);
            assert(has_name(s, cv.name));
            crate::storage::lemma_index_of(s, i);
        }
        self.storage.save_config(config);
        let mut pattern = text("DOCK_CONTAINER");
        pattern.append("=");
        pattern.append(name);
        let mut args: Vec<String> = Vec::new();
        args.push(text("-f"));
        args.push(pattern);
        proof {
            assert(views(args@) =~= seq!["-f"@, tag_var() + "="@ + name@]);
        }
        Ok(StopPlan { record, program: text("pkill"), args })
    }

    /// Deletes a stopped container's config and plans the removal of its
    /// files. Refused where it is missing or running.
    pub fn remove(&mut self, name: &str) -> (r: Result<RemovePlan, DockError>)
        requires
            old(self).wf(),
        ensures
            final(self).wf(),
            final(self)@.base == old(self)@.base,
            r is Ok <==> remove_outcome(old(self)@.configs, name@) is Ok,
            r matches Ok(p) ==> {
                &&& remove_outcome(old(self)@.configs, name@) == Ok::<Seq<ConfigModel>, DockError>(final(self)@.configs)
                &&& p.name@ == name@
                &&& p.root@ == root_path(old(self)@.base, name@)
                &&& p.log@ == log_path(old(self)@.base, name@)
            },
            r matches Err(e) ==> remove_outcome(old(self)@.configs, name@) == Err::<
                Seq<ConfigModel>,
                DockError,
            >(e) && final(self)@ == old(self)@,
    {
        let config = match self.storage.load_config(name) {
            Ok(c) => c,
            Err(e) => return Err(e),
        };
        if config.status == Status::Running {
            return Err(DockError::CannotRemoveRunning);
        }
        let root = self.storage.filesystem_path(name);
        let log = self.storage.logs_path(name);
        let _ = self.storage.delete_config(name);
        Ok(RemovePlan { name: text(name), root, log })
    }
    /// The container table, one row per container in store order.
    pub fn list(&self) -> (r: Vec<String>)
        ensures
            views(r@) == list_lines(self@.configs),
    {
        let containers = self.storage.list_containers();
        let mut lines: Vec<String> = Vec::new();
        if containers.len() == 0 {
            lines.push(text("No containers found"));
            assert(views(lines@) =~= list_lines(self@.configs));
            return lines;
        }
        lines.push(render_row("NAME", "STATUS", "PYTHON", "PORT"));
        let mut rule = String::new();
        let mut k: usize = 0;
        while k < 70
            invariant
                k <= 70,
                rule@ == Seq::new(k as nat, |_i: int| '-'),
            decreases 70 - k,
        {
            rule.append("-");
            proof {
                reveal_strlit("-");
                assert(rule@ =~= Seq::new((k + 1) as nat, |_i: int| '-'));
            }
            k = k + 1;
        }
        lines.push(rule);
        let ghost cs = crate::storage::config_views(containers@);
        let mut i: usize = 0;
        while i < containers.len()
            invariant
                i <= containers@.len(),
                cs == self@.configs,
                cs == crate::storage::config_views(containers@),
                cs.len() > 0,
                views(lines@) == seq![table_row("NAME"@, "STATUS"@, "PYTHON"@, "PORT"@), rule_line()]
                    + cs.subrange(0, i as int).map_values(|c: ConfigModel| config_row(c)),
            decreases containers@.len() - i,
        {
            let c = &containers[i];
            assert(cs[i as int] == c@);
            let port = match &c.port_mapping {
                Some(p) => p.clone(),
                None => text("-"),
            };
            let row = render_row(c.name.as_str(), c.status.as_str(), c.python_version.as_str(), port.as_str());
            let ghost before = lines@;
            lines.push(row);
            proof {
                assert(cs.subrange(0, i + 1) =~= cs.subrange(0, i as int).push(cs[i as int]));
                assert(views(lines@) =~= views(before).push(row@));
                assert(views(lines@) =~= seq![table_row("NAME"@, "STATUS"@, "PYTHON"@, "PORT"@), rule_line()]
                    + cs.subrange(0, i + 1).map_values(|c: ConfigModel| config_row(c)));
            }
            i = i + 1;
        }
        assert(cs.subrange(0, i as int) =~= cs);
        lines
    }

    /// Plans an interactive shell in an existing container's root, with its
    /// name and root in the environment; `NotFound` where it is missing.
    pub fn enter(&self, name: &str, bash_available: bool) -> (r: Result<EnterPlan, DockError>)
        requires
            self.wf(),
        ensures
            r is Err <==> !has_name(self@.configs, name@),
            r matches Err(e) ==> e == DockError::NotFound,
            r matches Ok(p) ==> {
                &&& p.shell@ == shell_for(bash_available)
                &&& p.dir@ == root_path(self@.base, name@)
                &&& env_views(p.env@) == enter_env(name@, root_path(self@.base, name@))
            },
    {
        if !self.storage.container_exists(name) {
            return Err(DockError::NotFound);
        }
        let dir = self.storage.filesystem_path(name);
        let shell = if bash_available {
            text("bash")
        } else {
            text("sh")
        };
        let mut env: Vec<(String, String)> = Vec::new();
        env.push((text("DOCK_CONTAINER"), text(name)));
        env.push((text("DOCK_ROOT"), dir.clone()));
        assert(env_views(env@) =~= enter_env(name@, root_path(self@.base, name@)));
        Ok(EnterPlan { shell, dir, env })
    }

    /// The log of a container, given the content of its log file where that
    /// file exists; a missing file is the explicit `NoLogs`, not an error.
    pub fn logs(&self, name: &str, content: Option<String>) -> (r: LogView)
        ensures
            content is None <==> r is NoLogs,
            content matches Some(t) ==> r matches LogView::Text(u) && u@ == t@,
    {
        match content {
            Some(t) => LogView::Text(t),
            None => LogView::NoLogs,
        }
    }
}

} // verus!
