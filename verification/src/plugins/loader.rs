//! The supervisor of provider processes.
//!
//! The supervisor decides; the host acts. It never binds a port, touches the
//! disk or spawns a process. The host hands it what it found (manifest
//! documents, a free port, whether the entry script exists, the handle of a
//! spawned process) and gets back what to do next. A process is known here by
//! the handle that the host chose for it.

use crate::plugins::manifest::{
    manifest_of_file, read_model, ManifestError, ManifestFault, ManifestModel, PluginManifest,
    PluginType,
};
use crate::text::{decimal, decimal_text, text_option};
use vstd::prelude::*;

verus! {

/// A provider and the process that serves it, if one runs.
#[derive(Debug)]
pub struct LoadedPlugin {
    /// The provider's manifest.
    pub manifest: PluginManifest,
    /// The provider's directory.
    pub dir: String,
    /// The host's handle of the serving process.
    pub server_process: Option<u64>,
    /// The port that the serving process was given.
    pub server_port: Option<u16>,
    /// Whether the provider is enabled.
    pub enabled: bool,
}

/// The mathematical content of a [`LoadedPlugin`].
pub struct PluginModel {
    pub manifest: ManifestModel,
    pub dir: Seq<char>,
    pub process: Option<u64>,
    pub port: Option<u16>,
    pub enabled: bool,
}

impl View for LoadedPlugin {
    type V = PluginModel;

    open spec fn view(&self) -> PluginModel {
        PluginModel {
            manifest: self.manifest@,
            dir: self.dir@,
            process: self.server_process,
            port: self.server_port,
            enabled: self.enabled,
        }
    }
}

/// Why a provider was not started.
#[derive(Debug)]
pub enum PluginError {
    /// No provider has this identifier.
    NotFound(String),
    /// The provider is not served by a process.
    NotWebView,
    /// A process runs, but its port is not known.
    PortMissing,
    /// The host found no free port.
    NoPort,
    /// The entry script does not exist; the text is its path.
    EntryNotFound(String),
    /// The process could not be spawned; the text is the host's description.
    SpawnFailed(String),
}

/// The mathematical content of a [`PluginError`].
pub enum PluginFault {
    NotFound(Seq<char>),
    NotWebView,
    PortMissing,
    NoPort,
    EntryNotFound(Seq<char>),
    SpawnFailed(Seq<char>),
}

impl View for PluginError {
    type V = PluginFault;

    open spec fn view(&self) -> PluginFault {
        match self {
            PluginError::NotFound(id) => PluginFault::NotFound(id@),
            PluginError::NotWebView => PluginFault::NotWebView,
            PluginError::PortMissing => PluginFault::PortMissing,
            PluginError::NoPort => PluginFault::NoPort,
            PluginError::EntryNotFound(path) => PluginFault::EntryNotFound(path@),
            PluginError::SpawnFailed(reason) => PluginFault::SpawnFailed(reason@),
        }
    }
}

/// The description of an error.
pub open spec fn fault_text(e: PluginFault) -> Seq<char> {
    match e {
        PluginFault::NotFound(id) => "Plugin not found: "@ + id,
        PluginFault::NotWebView => "Not a WebView plugin"@,
        PluginFault::PortMissing => "Server running but no port"@,
        PluginFault::NoPort => "No available port"@,
        PluginFault::EntryNotFound(path) => "Python entry not found: \""@ + path + "\""@,
        PluginFault::SpawnFailed(reason) => "Failed to start plugin server: "@ + reason,
    }
}

impl PluginError {
    /// The error's description.
    pub fn to_string(&self) -> (text: String)
        ensures
            text@ == fault_text(self@),
    {
        match self {
            PluginError::NotFound(id) => {
                let mut text = "Plugin not found: ".to_owned();
                text.append(id.as_str());
                text
            },
            PluginError::NotWebView => "Not a WebView plugin".to_owned(),
            PluginError::PortMissing => "Server running but no port".to_owned(),
            PluginError::NoPort => "No available port".to_owned(),
            PluginError::EntryNotFound(path) => {
                let mut text = "Python entry not found: \"".to_owned();
                text.append(path.as_str());
                text.append("\"");
                text
            },
            PluginError::SpawnFailed(reason) => {
                let mut text = "Failed to start plugin server: ".to_owned();
                text.append(reason.as_str());
                text
            },
        }
    }
}

/// What the host does to start a provider.
#[derive(Debug)]
pub enum StartStep {
    /// Nothing: the start is settled. A provider that runs already gives its
    /// port.
    Done(Result<u16, PluginError>),
    /// Find a free port, resolve `entry` against `dir`, see whether the
    /// script exists, and ask for the launch command.
    Probe { dir: String, entry: String },
}

/// The mathematical content of a [`StartStep`].
pub enum StartStepModel {
    Done(Result<u16, PluginFault>),
    Probe { dir: Seq<char>, entry: Seq<char> },
}

/// The content of a port or of an error, whichever a result holds.
pub open spec fn port_result(r: Result<u16, PluginError>) -> Result<u16, PluginFault> {
    match r {
        Ok(port) => Ok(port),
        Err(e) => Err(e@),
    }
}

impl View for StartStep {
    type V = StartStepModel;

    open spec fn view(&self) -> StartStepModel {
        match self {
            StartStep::Done(r) => StartStepModel::Done(port_result(*r)),
            StartStep::Probe { dir, entry } => StartStepModel::Probe { dir: dir@, entry: entry@ },
        }
    }
}

/// The process to spawn for a provider.
#[derive(Debug)]
pub struct LaunchCommand {
    /// The interpreter.
    pub program: String,
    /// The working directory: the provider's directory.
    pub working_dir: String,
    /// The arguments: the entry script's path, then the port.
    pub args: Vec<String>,
}

/// The mathematical content of a [`LaunchCommand`].
pub struct LaunchModel {
    pub program: Seq<char>,
    pub working_dir: Seq<char>,
    pub entry_path: Seq<char>,
    pub port: u16,
}

impl LaunchCommand {
    /// Whether the command is the one that `m` describes: the arguments are
    /// the entry script's path and the port in decimal digits.
    pub open spec fn is_launch(&self, m: LaunchModel) -> bool {
        &&& self.program@ == m.program
        &&& self.working_dir@ == m.working_dir
        &&& self.args@.len() == 2
        &&& self.args@[0]@ == m.entry_path
        &&& self.args@[1]@ == decimal(m.port as nat)
    }
}

/// What recording a spawn gives: the result of the start, and the handle of
/// a process that the host has to stop because the provider ran already or
/// takes no process.
#[derive(Debug)]
pub struct StartOutcome {
    pub result: Result<u16, PluginError>,
    pub stop: Option<u64>,
}

/// The entry script of a manifest, relative to the provider's directory.
pub open spec fn entry_of(m: ManifestModel) -> Seq<char> {
    match m.python_entry {
        Some(e) => e,
        None => "python/app.py"@,
    }
}

/// The URL under which a process at `port` serves.
pub open spec fn url_of_port(port: u16) -> Seq<char> {
    "http://127.0.0.1:"@ + decimal(port as nat)
}

/// The URL of a provider: that of its port, while it has one.
pub open spec fn plugin_url(p: PluginModel) -> Option<Seq<char>> {
    match p.port {
        Some(port) => Some(url_of_port(port)),
        None => None,
    }
}

/// A provider fresh from discovery: enabled, without a process.
pub open spec fn fresh_plugin(manifest: ManifestModel, dir: Seq<char>) -> PluginModel {
    PluginModel { manifest, dir, process: None, port: None, enabled: true }
}

/// What the host does to start a provider: nothing where the provider takes
/// no process or runs already, else probe.
pub open spec fn start_step(p: PluginModel) -> StartStepModel {
    if p.manifest.kind != PluginType::WebView {
        StartStepModel::Done(Err(PluginFault::NotWebView))
    } else if p.process is Some {
        match p.port {
            Some(port) => StartStepModel::Done(Ok(port)),
            None => StartStepModel::Done(Err(PluginFault::PortMissing)),
        }
    } else {
        StartStepModel::Probe { dir: p.dir, entry: entry_of(p.manifest) }
    }
}

/// The launch command after the probe: refused without a port, and without
/// the entry script.
pub open spec fn launch_of(
    p: PluginModel,
    python_cmd: Seq<char>,
    port: Option<u16>,
    entry_path: Seq<char>,
    entry_exists: bool,
) -> Result<LaunchModel, PluginFault> {
    match port {
        None => Err(PluginFault::NoPort),
        Some(n) => if !entry_exists {
            Err(PluginFault::EntryNotFound(entry_path))
        } else {
            Ok(LaunchModel { program: python_cmd, working_dir: p.dir, entry_path, port: n })
        },
    }
}

/// The provider after a spawn was recorded, the result of the start, and the
/// handle of a process to stop.
///
/// A failed spawn leaves the provider as it was. A spawned process is recorded
/// with its port, unless the start was settled without it: then the provider
/// stays as it was and the new process is to be stopped.
pub open spec fn after_spawn(p: PluginModel, port: u16, spawned: Result<u64, Seq<char>>) -> (
    PluginModel,
    Result<u16, PluginFault>,
    Option<u64>,
) {
    match spawned {
        Err(reason) => (p, Err(PluginFault::SpawnFailed(reason)), None),
        Ok(handle) => match start_step(p) {
            StartStepModel::Done(r) => (p, r, Some(handle)),
            StartStepModel::Probe { .. } => (
                PluginModel { process: Some(handle), port: Some(port), ..p },
                Ok(port),
                None,
            ),
        },
    }
}

/// The provider after a stop: without process and port.
pub open spec fn stopped(p: PluginModel) -> PluginModel {
    PluginModel { process: None, port: None, ..p }
}

impl LoadedPlugin {
    /// A provider fresh from discovery.
    pub fn new(manifest: PluginManifest, dir: String) -> (p: Self)
        ensures
            p@ == fresh_plugin(manifest@, dir@),
    {
        LoadedPlugin { manifest, dir, server_process: None, server_port: None, enabled: true }
    }

    /// The URL of the provider's view, while a port is known.
    pub fn get_url(&self) -> (url: Option<String>)
        ensures
            text_option(url) == plugin_url(self@),
    {
        match self.server_port {
            Some(port) => {
                let mut url = "http://127.0.0.1:".to_owned();
                url.append(decimal_text(port as u64).as_str());
                Some(url)
            },
            None => None,
        }
    }

    /// The first step of a start.
    pub fn start_server(&self) -> (step: StartStep)
        ensures
            step@ == start_step(self@),
    {
        if self.manifest.kind != PluginType::WebView {
            return StartStep::Done(Err(PluginError::NotWebView));
        }
        if self.server_process.is_some() {
            return match self.server_port {
                Some(port) => StartStep::Done(Ok(port)),
                None => StartStep::Done(Err(PluginError::PortMissing)),
            };
        }
        StartStep::Probe {
            dir: self.dir.clone(),
            entry: self.manifest.get_python_entry().to_owned(),
        }
    }

    /// The second step of a start, after the probe: the command to spawn.
    /// `port` is the free port that the host found, if any; `entry_path` is the
    /// entry script's path and `entry_exists` says whether the script is there.
    pub fn launch_command(
        &self,
        python_cmd: &str,
        port: Option<u16>,
        entry_path: &str,
        entry_exists: bool,
    ) -> (r: Result<LaunchCommand, PluginError>)
        ensures
            match r {
                Ok(c) => launch_of(self@, python_cmd@, port, entry_path@, entry_exists)
                    matches Ok(m) && c.is_launch(m),
                Err(e) => launch_of(self@, python_cmd@, port, entry_path@, entry_exists) == Err::<
                    LaunchModel,
                    PluginFault,
                >(e@),
            },
    {
        match port {
            None => Err(PluginError::NoPort),
            Some(n) => {
                if !entry_exists {
                    Err(PluginError::EntryNotFound(entry_path.to_owned()))
                } else {
                    let mut args: Vec<String> = Vec::new();
                    args.push(entry_path.to_owned());
                    args.push(decimal_text(n as u64));
                    Ok(
                        LaunchCommand {
                            program: python_cmd.to_owned(),
                            working_dir: self.dir.clone(),
                            args,
                        },
                    )
                }
            },
        }
    }

    /// The last step of a start: records how the spawn ended.
    pub fn server_started(&mut self, port: u16, spawned: Result<u64, String>) -> (outcome:
        StartOutcome)
        ensures
            ({
                let after = after_spawn(
                    old(self)@,
                    port,
                    match spawned {
                        Ok(h) => Ok(h),
                        Err(reason) => Err(reason@),
                    },
                );
                &&& final(self)@ == after.0
                &&& port_result(outcome.result) == after.1
                &&& outcome.stop == after.2
            }),
    {
        match spawned {
            Err(reason) => StartOutcome { result: Err(PluginError::SpawnFailed(reason)), stop: None },
            Ok(handle) => match self.start_server() {
                StartStep::Done(result) => StartOutcome { result, stop: Some(handle) },
                StartStep::Probe { .. } => {
                    self.server_process = Some(handle);
                    self.server_port = Some(port);
                    StartOutcome { result: Ok(port), stop: None }
                },
            },
        }
    }

    /// Stops the provider: hands back the handle of the process to kill and
    /// to wait for, if one runs. Afterwards no process and no port are recorded.
    pub fn stop_server(&mut self) -> (handle: Option<u64>)
        ensures
            handle == old(self)@.process,
            final(self)@ == stopped(old(self)@),
    {
        let handle = self.server_process;
        self.server_process = None;
        self.server_port = None;
        handle
    }

    /// Whether a process runs for the provider.
    pub fn is_server_running(&self) -> (b: bool)
        ensures
            b == (self@.process is Some),
    {
        self.server_process.is_some()
    }
}

/// The first position of the provider with the given identifier.
pub open spec fn index_of(plugins: Seq<PluginModel>, id: Seq<char>) -> Option<int>
    decreases plugins.len(),
{
    if plugins.len() == 0 {
        None
    } else if plugins[0].manifest.id == id {
        Some(0)
    } else {
        match index_of(plugins.drop_first(), id) {
            Some(i) => Some(i + 1),
            None => None,
        }
    }
}

/// The provider with the given identifier.
pub open spec fn find_plugin(plugins: Seq<PluginModel>, id: Seq<char>) -> Option<PluginModel> {
    match index_of(plugins, id) {
        Some(i) => Some(plugins[i]),
        None => None,
    }
}

/// Whether no identifier occurs twice.
pub open spec fn distinct_ids(plugins: Seq<PluginModel>) -> bool {
    forall|i: int, j: int|
        0 <= i < j < plugins.len() ==> (#[trigger] plugins[i]).manifest.id != (
        #[trigger] plugins[j]).manifest.id
}

/// Whether a port is recorded only beside a process.
pub open spec fn ports_follow_processes(plugins: Seq<PluginModel>) -> bool {
    forall|i: int|
        0 <= i < plugins.len() ==> (#[trigger] plugins[i]).process is None ==> plugins[i].port
            is None
}

/// `index_of` gives the first position that holds the identifier, and `None`
/// where no position holds it.
pub proof fn lemma_index_of(plugins: Seq<PluginModel>, id: Seq<char>)
    ensures
        match index_of(plugins, id) {
            Some(i) => 0 <= i < plugins.len() && plugins[i].manifest.id == id && forall|k: int|
                0 <= k < i ==> (#[trigger] plugins[k]).manifest.id != id,
            None => forall|k: int|
                0 <= k < plugins.len() ==> (#[trigger] plugins[k]).manifest.id != id,
        },
    decreases plugins.len(),
{
    if plugins.len() > 0 && plugins[0].manifest.id != id {
        let rest = plugins.drop_first();
        lemma_index_of(rest, id);
        match index_of(rest, id) {
            Some(i) => {
                assert forall|k: int| 0 <= k < i + 1 implies (#[trigger] plugins[k]).manifest.id
                    != id by {
                    if k > 0 {
                        assert(rest[k - 1] == plugins[k]);
                    }
                }
            },
            None => {
                assert forall|k: int| 0 <= k < plugins.len() implies (
                #[trigger] plugins[k]).manifest.id != id by {
                    if k > 0 {
                        assert(rest[k - 1] == plugins[k]);
                    }
                }
            },
        }
    }
}

/// A position that holds the identifier, with no earlier one that does, is
/// what `index_of` gives.
pub proof fn lemma_index_of_is(plugins: Seq<PluginModel>, id: Seq<char>, i: int)
    requires
        0 <= i < plugins.len(),
        plugins[i].manifest.id == id,
        forall|k: int| 0 <= k < i ==> (#[trigger] plugins[k]).manifest.id != id,
    ensures
        index_of(plugins, id) == Some(i),
{
    lemma_index_of(plugins, id);
}

/// The providers after one was registered: it takes the place of the provider
/// with its identifier, or the last place where there is none.
pub open spec fn upsert(plugins: Seq<PluginModel>, p: PluginModel) -> Seq<PluginModel> {
    match index_of(plugins, p.manifest.id) {
        Some(i) => plugins.update(i, p),
        None => plugins.push(p),
    }
}

/// The process that registering `p` displaces: that of the provider with its
/// identifier, if one runs.
pub open spec fn displaced(plugins: Seq<PluginModel>, p: PluginModel) -> Option<u64> {
    match find_plugin(plugins, p.manifest.id) {
        Some(old) => old.process,
        None => None,
    }
}

/// The providers after each was stopped.
pub open spec fn all_stopped(plugins: Seq<PluginModel>) -> Seq<PluginModel> {
    Seq::new(plugins.len(), |i: int| stopped(plugins[i]))
}

/// The handles of the running processes, in the providers' order.
pub open spec fn running_handles(plugins: Seq<PluginModel>) -> Seq<u64>
    decreases plugins.len(),
{
    if plugins.len() == 0 {
        Seq::empty()
    } else {
        match plugins.last().process {
            Some(h) => running_handles(plugins.drop_last()).push(h),
            None => running_handles(plugins.drop_last()),
        }
    }
}

/// The positions of the providers to show in the sidebar: those enabled
/// whose manifest asks for it, in the providers' order.
pub open spec fn sidebar_positions(plugins: Seq<PluginModel>) -> Seq<int>
    decreases plugins.len(),
{
    if plugins.len() == 0 {
        Seq::empty()
    } else {
        let before = sidebar_positions(plugins.drop_last());
        if plugins.last().enabled && plugins.last().manifest.show_in_sidebar {
            before.push(plugins.len() - 1)
        } else {
            before
        }
    }
}

/// The providers of a vector, one by one.
pub open spec fn plugin_models(plugins: Seq<LoadedPlugin>) -> Seq<PluginModel> {
    Seq::new(plugins.len(), |i: int| plugins[i]@)
}

/// The supervisor: the providers by identifier, the directory they were
/// found in, and the command that runs their entry scripts.
#[derive(Debug)]
pub struct PluginLoader {
    plugins_dir: String,
    plugins: Vec<LoadedPlugin>,
    python_cmd: String,
}

impl View for PluginLoader {
    type V = Seq<PluginModel>;

    closed spec fn view(&self) -> Seq<PluginModel> {
        plugin_models(self.plugins@)
    }
}

impl PluginLoader {
    /// The directory that providers are discovered in.
    pub closed spec fn root(&self) -> Seq<char> {
        self.plugins_dir@
    }

    /// The command that runs entry scripts.
    pub closed spec fn interpreter(&self) -> Seq<char> {
        self.python_cmd@
    }

    /// What holds of every supervisor: no identifier occurs twice, and a
    /// port is recorded only beside a process.
    pub open spec fn wf(&self) -> bool {
        distinct_ids(self@) && ports_follow_processes(self@)
    }

    /// A supervisor without providers.
    pub fn new(plugins_dir: String, python_cmd: String) -> (loader: Self)
        ensures
            loader.wf(),
            loader@ == Seq::<PluginModel>::empty(),
            loader.root() == plugins_dir@,
            loader.interpreter() == python_cmd@,
    {
        let loader = PluginLoader { plugins_dir, plugins: Vec::new(), python_cmd };
        assert(loader@ =~= Seq::<PluginModel>::empty());
        loader
    }

    /// The directory that providers are discovered in.
    pub fn plugins_dir(&self) -> (dir: &String)
        ensures
            dir@ == self.root(),
    {
        &self.plugins_dir
    }

    /// The command that runs entry scripts.
    pub fn python_cmd(&self) -> (cmd: &String)
        ensures
            cmd@ == self.interpreter(),
    {
        &self.python_cmd
    }

    /// The position of the provider with the given identifier.
    fn position(&self, id: &str) -> (r: Option<usize>)
        ensures
            match r {
                Some(i) => index_of(self@, id@) == Some(i as int) && i < self.plugins@.len(),
                None => index_of(self@, id@) is None,
            },
    {
        let wanted = id.to_owned();
        let mut i: usize = 0;
        while i < self.plugins.len()
            invariant
                i <= self.plugins@.len(),
                wanted@ == id@,
                forall|k: int| 0 <= k < i ==> (#[trigger] self@[k]).manifest.id != id@,
            decreases self.plugins.len() - i,
        {
            if self.plugins[i].manifest.id == wanted {
                proof {
                    lemma_index_of_is(self@, id@, i as int);
                }
                return Some(i);
            }
            i += 1;
        }
        proof {
            lemma_index_of(self@, id@);
        }
        None
    }

    /// Registers a provider under its identifier, in place of the provider
    /// that had it. Hands back the handle of the displaced provider's process,
    /// which the host has to stop.
    pub fn register(&mut self, manifest: PluginManifest, dir: String) -> (stop: Option<u64>)
        requires
            old(self).wf(),
        ensures
            final(self).wf(),
            final(self)@ == upsert(old(self)@, fresh_plugin(manifest@, dir@)),
            stop == displaced(old(self)@, fresh_plugin(manifest@, dir@)),
            final(self).root() == old(self).root(),
            final(self).interpreter() == old(self).interpreter(),
    {
        let found = self.position(manifest.id.as_str());
        let plugin = LoadedPlugin::new(manifest, dir);
        proof {
            lemma_index_of(self@, plugin@.manifest.id);
        }
        match found {
            Some(i) => {
                let stop = self.plugins[i].server_process;
                self.plugins.set(i, plugin);
                assert(self@ =~= old(self)@.update(i as int, plugin@));
                stop
            },
            None => {
                self.plugins.push(plugin);
                assert(self@ =~= old(self)@.push(plugin@));
                None
            },
        }
    }

    /// The provider with the given identifier.
    pub fn get_plugin(&self, id: &str) -> (r: Option<&LoadedPlugin>)
        ensures
            match r {
                Some(p) => find_plugin(self@, id@) == Some(p@),
                None => find_plugin(self@, id@) is None,
            },
    {
        match self.position(id) {
            Some(i) => Some(&self.plugins[i]),
            None => None,
        }
    }

    /// The providers, in the order they were first registered.
    pub fn plugins(&self) -> (all: &Vec<LoadedPlugin>)
        ensures
            plugin_models(all@) == self@,
    {
        &self.plugins
    }

    /// The number of providers.
    pub fn plugin_count(&self) -> (n: usize)
        ensures
            n == self@.len(),
    {
        self.plugins.len()
    }

    /// The URL of a provider's view: `None` for an unknown provider and for
    /// one without a port.
    pub fn url_for(&self, id: &str) -> (url: Option<String>)
        ensures
            text_option(url) == (match find_plugin(self@, id@) {
                Some(p) => plugin_url(p),
                None => None,
            }),
    {
        match self.get_plugin(id) {
            Some(p) => p.get_url(),
            None => None,
        }
    }

    /// The first step of a start: `NotFound` for an unknown provider, else
    /// the provider's own first step.
    pub fn start_plugin(&self, id: &str) -> (step: StartStep)
        ensures
            step@ == (match find_plugin(self@, id@) {
                Some(p) => start_step(p),
                None => StartStepModel::Done(Err(PluginFault::NotFound(id@))),
            }),
    {
        match self.get_plugin(id) {
            Some(p) => p.start_server(),
            None => StartStep::Done(Err(PluginError::NotFound(id.to_owned()))),
        }
    }

    /// The second step of a start: the command to spawn, with the
    /// supervisor's interpreter.
    pub fn launch_plugin(&self, id: &str, port: Option<u16>, entry_path: &str, entry_exists: bool)
        -> (r: Result<LaunchCommand, PluginError>)
        ensures
            match find_plugin(self@, id@) {
                Some(p) => match r {
                    Ok(c) => launch_of(p, self.interpreter(), port, entry_path@, entry_exists)
                        matches Ok(m) && c.is_launch(m),
                    Err(e) => launch_of(p, self.interpreter(), port, entry_path@, entry_exists)
                        == Err::<LaunchModel, PluginFault>(e@),
                },
                None => r matches Err(e) && e@ == PluginFault::NotFound(id@),
            },
    {
        match self.get_plugin(id) {
            Some(p) => p.launch_command(self.python_cmd.as_str(), port, entry_path, entry_exists),
            None => Err(PluginError::NotFound(id.to_owned())),
        }
    }

    /// The last step of a start: records how the spawn ended. For an unknown
    /// provider nothing is recorded and a spawned process is to be stopped.
    pub fn plugin_started(&mut self, id: &str, port: u16, spawned: Result<u64, String>) -> (outcome:
        StartOutcome)
        requires
            old(self).wf(),
        ensures
            final(self).wf(),
            final(self).root() == old(self).root(),
            final(self).interpreter() == old(self).interpreter(),
            ({
                let result = match spawned {
                    Ok(h) => Ok(h),
                    Err(reason) => Err(reason@),
                };
                match index_of(old(self)@, id@) {
                    Some(i) => {
                        let after = after_spawn(old(self)@[i], port, result);
                        &&& final(self)@ == old(self)@.update(i, after.0)
                        &&& port_result(outcome.result) == after.1
                        &&& outcome.stop == after.2
                    },
                    None => {
                        &&& final(self)@ == old(self)@
                        &&& port_result(outcome.result) == Err::<u16, PluginFault>(
                            PluginFault::NotFound(id@),
                        )
                        &&& outcome.stop == (match spawned {
                            Ok(h) => Some(h),
                            Err(_) => None,
                        })
                    },
                }
            }),
    {
        match self.position(id) {
            Some(i) => {
                let mut plugin = self.plugins.remove(i);
                let outcome = plugin.server_started(port, spawned);
                let ghost after = plugin@;
                self.plugins.insert(i, plugin);
                assert(self@ =~= old(self)@.update(i as int, after));
                outcome
            },
            None => StartOutcome {
                result: Err(PluginError::NotFound(id.to_owned())),
                stop: match spawned {
                    Ok(h) => Some(h),
                    Err(_) => None,
                },
            },
        }
    }

    /// Stops a provider: hands back the handle of the process to kill and to
    /// wait for, if one runs. For an unknown provider, and for one that does
    /// not run, nothing is handed back.
    pub fn stop_plugin(&mut self, id: &str) -> (handle: Option<u64>)
        requires
            old(self).wf(),
        ensures
            final(self).wf(),
            final(self).root() == old(self).root(),
            final(self).interpreter() == old(self).interpreter(),
            match index_of(old(self)@, id@) {
                Some(i) => handle == old(self)@[i].process && final(self)@ == old(self)@.update(
                    i,
                    stopped(old(self)@[i]),
                ),
                None => handle is None && final(self)@ == old(self)@,
            },
    {
        match self.position(id) {
            Some(i) => {
                let mut plugin = self.plugins.remove(i);
                let handle = plugin.stop_server();
                let ghost after = plugin@;
                self.plugins.insert(i, plugin);
                assert(self@ =~= old(self)@.update(i as int, after));
                handle
            },
            None => None,
        }
    }

    /// Stops every provider: hands back the handles of all running
    /// processes. Afterwards none runs.
    pub fn stop_all(&mut self) -> (handles: Vec<u64>)
        requires
            old(self).wf(),
        ensures
            final(self).wf(),
            final(self).root() == old(self).root(),
            final(self).interpreter() == old(self).interpreter(),
            handles@ == running_handles(old(self)@),
            final(self)@ == all_stopped(old(self)@),
            running_handles(final(self)@) == Seq::<u64>::empty(),
    {
        let mut handles: Vec<u64> = Vec::new();
        let mut i: usize = 0;
        while i < self.plugins.len()
            invariant
                i <= self.plugins@.len(),
                self.plugins@.len() == old(self).plugins@.len(),
                self.plugins_dir == old(self).plugins_dir,
                self.python_cmd == old(self).python_cmd,
                handles@ == running_handles(old(self)@.take(i as int)),
                forall|k: int| 0 <= k < i ==> (#[trigger] self@[k]) == stopped(old(self)@[k]),
                forall|k: int|
                    i <= k < self.plugins@.len() ==> (#[trigger] self@[k]) == old(self)@[k],
            decreases self.plugins.len() - i,
        {
            let ghost before = self@;
            assert(before[i as int] == old(self)@[i as int]);
            let mut plugin = self.plugins.remove(i);
            assert(plugin@ == before[i as int]);
            let handle = plugin.stop_server();
            let ghost after = plugin@;
            self.plugins.insert(i, plugin);
            assert(self@ =~= before.update(i as int, after));
            assert(old(self)@.take(i + 1).drop_last() == old(self)@.take(i as int));
            assert(old(self)@.take(i + 1).last() == old(self)@[i as int]);
            assert forall|k: int| 0 <= k < i + 1 implies (#[trigger] self@[k]) == stopped(
                old(self)@[k],
            ) by {
                if k < i {
                    assert(before[k] == stopped(old(self)@[k]));
                }
            }
            assert forall|k: int| i + 1 <= k < self.plugins@.len() implies (#[trigger] self@[k])
                == old(self)@[k] by {
                assert(before[k] == old(self)@[k]);
            }
            match handle {
                Some(h) => {
                    handles.push(h);
                },
                None => {},
            }
            i += 1;
        }
        assert(old(self)@.take(i as int) == old(self)@);
        assert(self@ =~= all_stopped(old(self)@));
        proof {
            lemma_stopped_none_running(old(self)@);
        }
        handles
    }

    /// The providers to show in the sidebar: those enabled whose manifest
    /// asks for it, in the providers' order.
    pub fn sidebar_plugins(&self) -> (shown: Vec<&LoadedPlugin>)
        ensures
            shown@.len() == sidebar_positions(self@).len(),
            forall|k: int|
                0 <= k < shown@.len() ==> (#[trigger] shown@[k])@ == self@[sidebar_positions(
                    self@,
                )[k]],
    {
        let mut shown: Vec<&LoadedPlugin> = Vec::new();
        let mut i: usize = 0;
        while i < self.plugins.len()
            invariant
                i <= self.plugins@.len(),
                shown@.len() == sidebar_positions(self@.take(i as int)).len(),
                forall|k: int|
                    0 <= k < shown@.len() ==> 0 <= (#[trigger] sidebar_positions(
                        self@.take(i as int),
                    )[k]) < i,
                forall|k: int|
                    0 <= k < shown@.len() ==> (#[trigger] shown@[k])@ == self@[sidebar_positions(
                        self@.take(i as int),
                    )[k]],
            decreases self.plugins.len() - i,
        {
            assert(self@.take(i + 1).drop_last() == self@.take(i as int));
            let p = &self.plugins[i];
            if p.enabled && p.manifest.show_in_sidebar {
                shown.push(p);
            }
            i += 1;
        }
        assert(self@.take(i as int) == self@);
        shown
    }

    /// Takes what a pass over the discovery directory found: its entries, in
    /// the order of the pass. An entry qualifies where it is a directory and
    /// holds a manifest file. A qualifying directory whose manifest reads is
    /// registered under the manifest's identifier; a later one takes the place
    /// of an earlier one with the same identifier. A qualifying directory whose
    /// manifest does not read is passed over and reported. The other entries
    /// are passed over in silence.
    pub fn scan_plugins(&mut self, found: Vec<ScanEntry>) -> (report: ScanReport)
        requires
            old(self).wf(),
        ensures
            final(self).wf(),
            final(self).root() == old(self).root(),
            final(self).interpreter() == old(self).interpreter(),
            final(self)@ == scan(old(self)@, entry_models(found@)).plugins,
            report.is_report(scan(old(self)@, entry_models(found@))),
    {
        let mut report = ScanReport { loaded: Vec::new(), skipped: Vec::new(), stop: Vec::new() };
        let mut i: usize = 0;
        let ghost files = entry_models(found@);
        assert(files.take(0) =~= Seq::<EntryModel>::empty());
        assert(text_models(report.loaded@) =~= Seq::<Seq<char>>::empty());
        assert(skipped_models(report.skipped@) =~= Seq::<(Seq<char>, ManifestFault)>::empty());
        while i < found.len()
            invariant
                i <= found@.len(),
                files == entry_models(found@),
                self.wf(),
                self.root() == old(self).root(),
                self.interpreter() == old(self).interpreter(),
                self@ == scan(old(self)@, files.take(i as int)).plugins,
                report.is_report(scan(old(self)@, files.take(i as int))),
            decreases found.len() - i,
        {
            assert(files.take(i + 1).drop_last() == files.take(i as int));
            assert(files.take(i + 1).last() == found@[i as int]@);
            let ghost before = scan(old(self)@, files.take(i as int));
            let entry = &found[i];
            if entry.is_dir {
                match &entry.manifest {
                    Some(read) => match PluginManifest::from_file(read) {
                        Ok(manifest) => {
                            report.loaded.push(manifest.id.clone());
                            match self.register(manifest, entry.path.clone()) {
                                Some(h) => {
                                    report.stop.push(h);
                                },
                                None => {},
                            }
                        },
                        Err(e) => {
                            let ghost fault = e@;
                            report.skipped.push((entry.path.clone(), e));
                            assert(skipped_models(report.skipped@) =~= before.skipped.push(
                                (entry.path@, fault),
                            ));
                        },
                    },
                    None => {},
                }
            }
            assert(skipped_models(report.skipped@) =~= scan(
                old(self)@,
                files.take(i + 1),
            ).skipped);
            assert(text_models(report.loaded@) =~= scan(old(self)@, files.take(i + 1)).loaded);
            i += 1;
        }
        assert(files.take(i as int) == files);
        report
    }

    /// Enables or disables a provider. An unknown identifier changes nothing.
    pub fn set_enabled(&mut self, id: &str, enabled: bool) -> (found: bool)
        requires
            old(self).wf(),
        ensures
            final(self).wf(),
            final(self).root() == old(self).root(),
            final(self).interpreter() == old(self).interpreter(),
            match index_of(old(self)@, id@) {
                Some(i) => found && final(self)@ == old(self)@.update(
                    i,
                    PluginModel { enabled, ..old(self)@[i] },
                ),
                None => !found && final(self)@ == old(self)@,
            },
    {
        match self.position(id) {
            Some(i) => {
                let mut plugin = self.plugins.remove(i);
                plugin.enabled = enabled;
                let ghost after = plugin@;
                self.plugins.insert(i, plugin);
                assert(self@ =~= old(self)@.update(i as int, after));
                true
            },
            None => false,
        }
    }
}

/// An entry of the discovery directory, as the host found it.
#[derive(Debug)]
pub struct ScanEntry {
    /// The entry's path.
    pub path: String,
    /// Whether the entry is a directory.
    pub is_dir: bool,
    /// What reading the manifest file in the entry gave: its content, or the
    /// reason it could not be read; `None` where the entry holds no manifest
    /// file.
    pub manifest: Option<Result<String, String>>,
}

/// The mathematical content of a [`ScanEntry`].
pub struct EntryModel {
    pub path: Seq<char>,
    pub is_dir: bool,
    pub manifest: Option<Result<Seq<char>, Seq<char>>>,
}

impl View for ScanEntry {
    type V = EntryModel;

    open spec fn view(&self) -> EntryModel {
        EntryModel {
            path: self.path@,
            is_dir: self.is_dir,
            manifest: match self.manifest {
                Some(read) => Some(read_model(read)),
                None => None,
            },
        }
    }
}

/// The manifest of an entry that qualifies: a directory that holds a
/// manifest file. `None` for any other entry.
pub open spec fn qualifying(e: EntryModel) -> Option<Result<ManifestModel, ManifestFault>> {
    match e.manifest {
        Some(read) if e.is_dir => Some(manifest_of_file(read)),
        _ => None,
    }
}

/// What a pass over the discovery directory did.
#[derive(Debug)]
pub struct ScanReport {
    /// The identifiers registered, in the order of the pass.
    pub loaded: Vec<String>,
    /// The directories passed over, each with the reason.
    pub skipped: Vec<(String, ManifestError)>,
    /// The handles of the processes of displaced providers, which the host
    /// has to stop.
    pub stop: Vec<u64>,
}

/// The mathematical content of a pass: the providers after it and the
/// content of its [`ScanReport`].
pub struct ScanModel {
    pub plugins: Seq<PluginModel>,
    pub loaded: Seq<Seq<char>>,
    pub skipped: Seq<(Seq<char>, ManifestFault)>,
    pub stop: Seq<u64>,
}

/// The characters of each string.
pub open spec fn text_models(texts: Seq<String>) -> Seq<Seq<char>> {
    Seq::new(texts.len(), |i: int| texts[i]@)
}

/// The content of each entry.
pub open spec fn entry_models(entries: Seq<ScanEntry>) -> Seq<EntryModel> {
    Seq::new(entries.len(), |i: int| entries[i]@)
}

/// The directory and the fault of each skipped file.
pub open spec fn skipped_models(skipped: Seq<(String, ManifestError)>) -> Seq<
    (Seq<char>, ManifestFault),
> {
    Seq::new(skipped.len(), |i: int| (skipped[i].0@, skipped[i].1@))
}

impl ScanReport {
    /// Whether the report is the one of the pass `m`.
    pub open spec fn is_report(&self, m: ScanModel) -> bool {
        &&& text_models(self.loaded@) == m.loaded
        &&& skipped_models(self.skipped@) == m.skipped
        &&& self.stop@ == m.stop
    }
}

/// A pass over the given entries, from the given providers.
pub open spec fn scan(plugins: Seq<PluginModel>, files: Seq<EntryModel>) -> ScanModel
    decreases files.len(),
{
    if files.len() == 0 {
        ScanModel { plugins, loaded: Seq::empty(), skipped: Seq::empty(), stop: Seq::empty() }
    } else {
        let before = scan(plugins, files.drop_last());
        let dir = files.last().path;
        match qualifying(files.last()) {
            None => before,
            Some(Err(fault)) => ScanModel { skipped: before.skipped.push((dir, fault)), ..before },
            Some(Ok(manifest)) => {
                let p = fresh_plugin(manifest, dir);
                ScanModel {
                    plugins: upsert(before.plugins, p),
                    loaded: before.loaded.push(manifest.id),
                    skipped: before.skipped,
                    stop: match displaced(before.plugins, p) {
                        Some(h) => before.stop.push(h),
                        None => before.stop,
                    },
                }
            },
        }
    }
}

/// The first candidate that is present.
pub open spec fn first_present(candidates: Seq<Seq<char>>, present: Seq<bool>) -> Option<
    Seq<char>,
>
    decreases candidates.len(),
{
    if candidates.len() == 0 {
        None
    } else if present.len() > 0 && present[0] {
        Some(candidates[0])
    } else {
        first_present(
            candidates.drop_first(),
            if present.len() > 0 {
                present.drop_first()
            } else {
                present
            },
        )
    }
}

/// Picks the first candidate that is present. `present[i]` says whether
/// candidate `i` is; a candidate without an entry counts as absent.
pub fn first_existing(candidates: &Vec<String>, present: &Vec<bool>) -> (r: Option<String>)
    ensures
        text_option(r) == first_present(
            text_models(candidates@),
            present@,
        ),
{
    let ghost all = text_models(candidates@);
    let mut i: usize = 0;
    assert(all.skip(0) == all);
    assert(present@.skip(0) == present@);
    while i < candidates.len()
        invariant
            i <= candidates@.len(),
            all == text_models(candidates@),
            first_present(all, present@) == first_present(
                all.skip(i as int),
                if i <= present@.len() {
                    present@.skip(i as int)
                } else {
                    Seq::empty()
                },
            ),
        decreases candidates.len() - i,
    {
        let ghost rest = if i <= present@.len() {
            present@.skip(i as int)
        } else {
            Seq::empty()
        };
        assert(all.skip(i as int)[0] == candidates@[i as int]@);
        if i < present.len() && present[i] {
            assert(rest[0] == present@[i as int]);
            return Some(candidates[i].clone());
        }
        assert(all.skip(i as int).drop_first() == all.skip(i + 1));
        proof {
            if i < present@.len() {
                assert(rest[0] == present@[i as int]);
                assert(rest.drop_first() == present@.skip(i + 1));
            } else {
                assert(rest =~= Seq::<bool>::empty());
                if i + 1 <= present@.len() {
                    assert(present@.skip(i + 1) =~= Seq::<bool>::empty());
                }
            }
        }
        i += 1;
    }
    None
}

/// The places where an interpreter is looked for, best first.
pub open spec fn python_candidates() -> Seq<Seq<char>> {
    seq![
        "/opt/homebrew/bin/python3.11"@,
        "/opt/homebrew/bin/python3"@,
        "/usr/local/bin/python3"@,
    ]
}

/// The places where an interpreter is looked for, best first.
pub fn python_candidate_paths() -> (paths: Vec<String>)
    ensures
        text_models(paths@) == python_candidates(),
{
    let mut paths: Vec<String> = Vec::new();
    paths.push("/opt/homebrew/bin/python3.11".to_owned());
    paths.push("/opt/homebrew/bin/python3".to_owned());
    paths.push("/usr/local/bin/python3".to_owned());
    assert(text_models(paths@) =~= python_candidates());
    paths
}

/// The command that runs entry scripts: the interpreter that ships with the
/// host where there is one, else the first of `python_candidates` that exists,
/// else `python3` from the search path. `present[i]` says whether candidate `i`
/// exists.
pub fn get_python_cmd(embedded: Option<String>, present: &Vec<bool>) -> (cmd: String)
    ensures
        cmd@ == (match embedded {
            Some(e) => e@,
            None => match first_present(python_candidates(), present@) {
                Some(c) => c,
                None => "python3"@,
            },
        }),
{
    match embedded {
        Some(e) => e,
        None => {
            let paths = python_candidate_paths();
            match first_existing(&paths, present) {
                Some(c) => c,
                None => "python3".to_owned(),
            }
        },
    }
}

/// Putting a provider in the place of one with the same identifier changes
/// no position of any identifier.
pub proof fn lemma_update_keeps_index(
    plugins: Seq<PluginModel>,
    i: int,
    q: PluginModel,
    id: Seq<char>,
)
    requires
        0 <= i < plugins.len(),
        q.manifest.id == plugins[i].manifest.id,
    ensures
        index_of(plugins.update(i, q), id) == index_of(plugins, id),
{
    let after = plugins.update(i, q);
    lemma_index_of(plugins, id);
    lemma_index_of(after, id);
    match index_of(plugins, id) {
        Some(k) => {
            assert(after[k].manifest.id == id);
            assert forall|j: int| 0 <= j < k implies (#[trigger] after[j]).manifest.id != id by {
                assert(plugins[j].manifest.id != id);
            }
            lemma_index_of_is(after, id, k);
        },
        None => {
            assert forall|j: int| 0 <= j < after.len() implies (#[trigger] after[j]).manifest.id
                != id by {
                assert(plugins[j].manifest.id != id);
            }
            match index_of(after, id) {
                Some(k) => {
                    assert(after[k].manifest.id != id);
                },
                None => {},
            }
        },
    }
}

/// Starting a provider that was just started settles at once with the same
/// port: no second process is asked for.
pub proof fn lemma_second_start_is_settled(p: PluginModel, port: u16, handle: u64)
    requires
        start_step(p) is Probe,
    ensures
        ({
            let after = after_spawn(p, port, Ok(handle));
            &&& after.1 == Ok::<u16, PluginFault>(port)
            &&& after.2 is None
            &&& after.0.process == Some(handle)
            &&& start_step(after.0) == StartStepModel::Done(Ok(port))
            &&& plugin_url(after.0) == Some(url_of_port(port))
        }),
{
}

/// The same for a supervisor: once the spawn for `id` was recorded, the next
/// start of `id` settles at once with the same port, and a process spawned
/// all the same is handed back to be stopped.
pub proof fn lemma_second_start_of_plugin(
    plugins: Seq<PluginModel>,
    id: Seq<char>,
    port: u16,
    handle: u64,
    other_port: u16,
    other_handle: u64,
)
    requires
        find_plugin(plugins, id) matches Some(p) && start_step(p) is Probe,
    ensures
        ({
            let i = index_of(plugins, id)->Some_0;
            let after = plugins.update(i, after_spawn(plugins[i], port, Ok(handle)).0);
            &&& find_plugin(after, id) matches Some(q) && start_step(q) == StartStepModel::Done(
                Ok(port),
            ) && after_spawn(q, other_port, Ok(other_handle)) == (
                q,
                Ok::<u16, PluginFault>(port),
                Some(other_handle),
            )
        }),
{
    lemma_index_of(plugins, id);
    let i = index_of(plugins, id)->Some_0;
    lemma_update_keeps_index(plugins, i, after_spawn(plugins[i], port, Ok(handle)).0, id);
}

/// Stopping a provider that does not run changes nothing, where a port is
/// recorded only beside a process.
pub proof fn lemma_stop_idle_changes_nothing(plugins: Seq<PluginModel>, id: Seq<char>)
    requires
        ports_follow_processes(plugins),
    ensures
        match index_of(plugins, id) {
            Some(i) => plugins[i].process is None ==> plugins.update(i, stopped(plugins[i]))
                == plugins,
            None => true,
        },
{
    lemma_index_of(plugins, id);
    match index_of(plugins, id) {
        Some(i) => {
            if plugins[i].process is None {
                assert(stopped(plugins[i]) == plugins[i]);
                assert(plugins.update(i, stopped(plugins[i])) =~= plugins);
            }
        },
        None => {},
    }
}

/// As many processes are handed back by `stop_all` as providers run.
pub proof fn lemma_running_handles(plugins: Seq<PluginModel>)
    ensures
        running_handles(plugins).len() <= plugins.len(),
        forall|i: int|
            0 <= i < plugins.len() && (#[trigger] plugins[i]).process is Some
                ==> running_handles(plugins).contains(plugins[i].process->Some_0),
        forall|h: u64|
            running_handles(plugins).contains(h) ==> exists|i: int|
                0 <= i < plugins.len() && (#[trigger] plugins[i]).process == Some(h),
    decreases plugins.len(),
{
    if plugins.len() > 0 {
        let before = plugins.drop_last();
        lemma_running_handles(before);
        let all = running_handles(plugins);
        let part = running_handles(before);
        assert forall|i: int| 0 <= i < plugins.len() && (#[trigger] plugins[i]).process
            is Some implies all.contains(plugins[i].process->Some_0) by {
            if i < plugins.len() - 1 {
                assert(before[i] == plugins[i]);
                let h = plugins[i].process->Some_0;
                assert(part.contains(h));
                let k = choose|k: int| 0 <= k < part.len() && part[k] == h;
                assert(all[k] == h);
            } else {
                assert(all[all.len() - 1] == plugins[i].process->Some_0);
            }
        }
        assert forall|h: u64| all.contains(h) implies exists|i: int|
            0 <= i < plugins.len() && (#[trigger] plugins[i]).process == Some(h) by {
            let k = choose|k: int| 0 <= k < all.len() && all[k] == h;
            if k < part.len() {
                assert(part[k] == h);
                assert(part.contains(h));
                let i = choose|i: int| 0 <= i < before.len() && (#[trigger] before[i]).process
                    == Some(h);
                assert(plugins[i].process == Some(h));
            } else {
                assert(plugins[plugins.len() - 1].process == Some(h));
            }
        }
    }
}

/// Among stopped providers no process runs.
pub proof fn lemma_stopped_none_running(plugins: Seq<PluginModel>)
    ensures
        running_handles(all_stopped(plugins)) == Seq::<u64>::empty(),
    decreases plugins.len(),
{
    if plugins.len() > 0 {
        lemma_stopped_none_running(plugins.drop_last());
        assert(all_stopped(plugins).drop_last() =~= all_stopped(plugins.drop_last()));
    }
}

} // verus!
