//! The persisted record of one container, and its text form.
use vstd::prelude::*;
use crate::codec::{decode_fields, encode_fields, join, lemma_parse_join, parse, views};

verus! {

/// The durable lifecycle state of a container.
#[derive(Clone, Copy, Debug, PartialEq, Eq, Structural)]
pub enum Status {
    Stopped,
    Running,
}

/// The runtime class detected for a script when its container is created.
#[derive(Clone, Copy, Debug, PartialEq, Eq, Structural)]
pub enum RuntimeTag {
    Python2,
    Python3,
    Unknown,
}

/// One container: its identity, entry point, runtime tag, status and the
/// port mapping of its last start.
pub struct ContainerConfig {
    pub id: String,
    pub name: String,
    pub script: String,
    pub python_version: String,
    pub status: Status,
    pub port_mapping: Option<String>,
}

/// What a `ContainerConfig` holds, as mathematical values.
pub struct ConfigModel {
    pub id: Seq<char>,
    pub name: Seq<char>,
    pub script: Seq<char>,
    pub python_version: Seq<char>,
    pub status: Status,
    pub port_mapping: Option<Seq<char>>,
}

pub open spec fn opt_view(o: Option<String>) -> Option<Seq<char>> {
    match o {
        Some(s) => Some(s@),
        None => None,
    }
}

impl View for ContainerConfig {
    type V = ConfigModel;

    open spec fn view(&self) -> ConfigModel {
        ConfigModel {
            id: self.id@,
            name: self.name@,
            script: self.script@,
            python_version: self.python_version@,
            status: self.status,
            port_mapping: opt_view(self.port_mapping),
        }
    }
}

/// The word that stands for a status in a record.
pub open spec fn status_word(s: Status) -> Seq<char> {
    match s {
        Status::Stopped => seq!['s', 't', 'o', 'p', 'p', 'e', 'd'],
        Status::Running => seq!['r', 'u', 'n', 'n', 'i', 'n', 'g'],
    }
}

/// The status that a record's word stands for, if any.
pub open spec fn status_of_word(w: Seq<char>) -> Option<Status> {
    if w == status_word(Status::Stopped) {
        Some(Status::Stopped)
    } else if w == status_word(Status::Running) {
        Some(Status::Running)
    } else {
        None
    }
}

/// The name under which a runtime tag is stored.
pub open spec fn tag_name(t: RuntimeTag) -> Seq<char> {
    match t {
        RuntimeTag::Python2 => seq!['P', 'y', 't', 'h', 'o', 'n', '2'],
        RuntimeTag::Python3 => seq!['P', 'y', 't', 'h', 'o', 'n', '3'],
        RuntimeTag::Unknown => seq!['U', 'n', 'k', 'n', 'o', 'w', 'n'],
    }
}

/// The executable that runs a script of the stored runtime tag; a tag that
/// is not known falls back to the generic interpreter.
pub open spec fn runtime_command(version: Seq<char>) -> Seq<char> {
    if version == tag_name(RuntimeTag::Python2) {
        seq!['p', 'y', 't', 'h', 'o', 'n', '2']
    } else if version == tag_name(RuntimeTag::Python3) {
        seq!['p', 'y', 't', 'h', 'o', 'n', '3']
    } else {
        seq!['p', 'y', 't', 'h', 'o', 'n']
    }
}

/// Whether `s` ends with `t`.
pub open spec fn ends_with(s: Seq<char>, t: Seq<char>) -> bool {
    s.len() >= t.len() && s.subrange(s.len() - t.len(), s.len() as int) == t
}

/// The runtime that a script's first line names: an interpreter line
/// (`#!`) ending in `python2` or `python3`; anything else is unknown.
pub open spec fn runtime_of_line(line: Seq<char>) -> RuntimeTag {
    if line.len() >= 2 && line[0] == '#' && line[1] == '!' {
        if ends_with(line, "python2"@) {
            RuntimeTag::Python2
        } else if ends_with(line, "python3"@) {
            RuntimeTag::Python3
        } else {
            RuntimeTag::Unknown
        }
    } else {
        RuntimeTag::Unknown
    }
}

/// Whether `s` ends with `t`.
pub fn text_ends_with(s: &str, t: &str) -> (r: bool)
    ensures
        r == ends_with(s@, t@),
{
    let n = s.unicode_len();
    let k = t.unicode_len();
    if n < k {
        return false;
    }
    same_text(s.substring_char(n - k, n), t)
}

/// The runtime that a script's first line names.
pub fn detect_runtime(first_line: &str) -> (r: RuntimeTag)
    ensures
        r == runtime_of_line(first_line@),
{
    let n = first_line.unicode_len();
    if n < 2 || first_line.get_char(0) != '#' || first_line.get_char(1) != '!' {
        return RuntimeTag::Unknown;
    }
    if text_ends_with(first_line, "python2") {
        RuntimeTag::Python2
    } else if text_ends_with(first_line, "python3") {
        RuntimeTag::Python3
    } else {
        RuntimeTag::Unknown
    }
}

/// The fields of a record: id, name, script, runtime tag, status, and the
/// port mapping where there is one.
pub open spec fn record_fields(c: ConfigModel) -> Seq<Seq<char>> {
    let base = seq![c.id, c.name, c.script, c.python_version, status_word(c.status)];
    match c.port_mapping {
        Some(p) => base.push(p),
        None => base,
    }
}

/// The text of a record.
pub open spec fn record_of(c: ConfigModel) -> Seq<char> {
    join(record_fields(c))
}

/// The config that a list of fields describes, if it describes one.
pub open spec fn config_of_fields(fs: Seq<Seq<char>>) -> Option<ConfigModel> {
    if (fs.len() == 5 || fs.len() == 6) && status_of_word(fs[4]) is Some {
        Some(ConfigModel {
            id: fs[0],
            name: fs[1],
            script: fs[2],
            python_version: fs[3],
            status: status_of_word(fs[4])->Some_0,
            port_mapping: if fs.len() == 6 { Some(fs[5]) } else { None },
        })
    } else {
        None
    }
}

/// The config that a record's text describes, if it describes one.
pub open spec fn read_record(t: Seq<char>) -> Option<ConfigModel> {
    match parse(t) {
        Some(fs) => config_of_fields(fs),
        None => None,
    }
}

/// Reading a written record gives back the same config, in every field,
/// with or without a port mapping.
pub proof fn lemma_record_round_trip(c: ConfigModel)
    ensures
        read_record(record_of(c)) == Some(c),
{
    let fs = record_fields(c);
    lemma_parse_join(fs);
    assert(status_of_word(status_word(Status::Stopped)) == Some(Status::Stopped));
    assert(status_word(Status::Running) != status_word(Status::Stopped)) by {
        assert(status_word(Status::Running)[0] != status_word(Status::Stopped)[0]);
    }
    assert(status_of_word(status_word(Status::Running)) == Some(Status::Running));
}

/// Whether two texts are the same.
pub fn same_text(a: &str, b: &str) -> (r: bool)
    ensures
        r == (a@ == b@),
{
    String::from_str(a) == String::from_str(b)
}

/// A copy of an optional string.
pub fn copy_opt(o: &Option<String>) -> (r: Option<String>)
    ensures
        opt_view(r) == opt_view(*o),
{
    match o {
        Some(s) => Some(s.clone()),
        None => None,
    }
}

impl Status {
    /// The word that stands for this status.
    pub fn as_str(&self) -> (r: &'static str)
        ensures
            r@ == status_word(*self),
    {
        match self {
            Status::Stopped => {
                proof { reveal_strlit("stopped"); }
                "stopped"
            },
            Status::Running => {
                proof { reveal_strlit("running"); }
                "running"
            },
        }
    }

    /// The status that a word stands for, if any.
    pub fn from_word(w: &str) -> (r: Option<Status>)
        ensures
            r == status_of_word(w@),
    {
        proof {
            reveal_strlit("stopped");
            reveal_strlit("running");
            assert("stopped"@ =~= status_word(Status::Stopped));
            assert("running"@ =~= status_word(Status::Running));
        }
        if same_text(w, "stopped") {
            Some(Status::Stopped)
        } else if same_text(w, "running") {
            Some(Status::Running)
        } else {
            None
        }
    }
}

impl RuntimeTag {
    /// The name under which this tag is stored.
    pub fn name(&self) -> (r: &'static str)
        ensures
            r@ == tag_name(*self),
    {
        match self {
            RuntimeTag::Python2 => {
                proof { reveal_strlit("Python2"); }
                "Python2"
            },
            RuntimeTag::Python3 => {
                proof { reveal_strlit("Python3"); }
                "Python3"
            },
            RuntimeTag::Unknown => {
                proof { reveal_strlit("Unknown"); }
                "Unknown"
            },
        }
    }
}

/// The executable for a stored runtime tag.
pub fn runtime_executable(version: &str) -> (r: &'static str)
    ensures
        r@ == runtime_command(version@),
{
    proof {
        reveal_strlit("Python2");
        reveal_strlit("Python3");
        reveal_strlit("python2");
        reveal_strlit("python3");
        reveal_strlit("python");
        assert("Python2"@ =~= tag_name(RuntimeTag::Python2));
        assert("Python3"@ =~= tag_name(RuntimeTag::Python3));
        assert("python2"@ =~= seq!['p', 'y', 't', 'h', 'o', 'n', '2']);
        assert("python3"@ =~= seq!['p', 'y', 't', 'h', 'o', 'n', '3']);
        assert("python"@ =~= seq!['p', 'y', 't', 'h', 'o', 'n']);
    }
    if same_text(version, "Python2") {
        "python2"
    } else if same_text(version, "Python3") {
        "python3"
    } else {
        "python"
    }
}

impl ContainerConfig {
    /// A copy of this config.
    pub fn duplicate(&self) -> (r: ContainerConfig)
        ensures
            r@ == self@,
    {
        ContainerConfig {
            id: self.id.clone(),
            name: self.name.clone(),
            script: self.script.clone(),
            python_version: self.python_version.clone(),
            status: self.status,
            port_mapping: copy_opt(&self.port_mapping),
        }
    }

    /// The text of this config's record.
    pub fn to_record(&self) -> (r: String)
        ensures
            r@ == record_of(self@),
    {
        let mut fs: Vec<String> = Vec::new();
        fs.push(self.id.clone());
        fs.push(self.name.clone());
        fs.push(self.script.clone());
        fs.push(self.python_version.clone());
        fs.push(String::from_str(self.status.as_str()));
        match &self.port_mapping {
            Some(p) => fs.push(p.clone()),
            None => {},
        }
        let r = encode_fields(&fs);
        assert(views(fs@) =~= record_fields(self@));
        r
    }

    /// The config that a record's text describes; `None` where the text is
    /// malformed, has the wrong number of fields or an unknown status.
    pub fn from_record(text: &str) -> (r: Option<ContainerConfig>)
        ensures
            r matches Some(c) ==> read_record(text@) == Some(c@),
            r is None ==> read_record(text@) is None,
    {
        let fs = match decode_fields(text) {
            Some(fs) => fs,
            None => return None,
        };
        let n = fs.len();
        if n != 5 && n != 6 {
            return None;
        }
        let ghost vs = views(fs@);
        assert(vs[4] == fs@[4]@);
        let status = match Status::from_word(fs[4].as_str()) {
            Some(s) => s,
            None => return None,
        };
        let port_mapping = if n == 6 {
            Some(fs[5].clone())
        } else {
            None
        };
        let c = ContainerConfig {
            id: fs[0].clone(),
            name: fs[1].clone(),
            script: fs[2].clone(),
            python_version: fs[3].clone(),
            status,
            port_mapping,
        };
        assert(vs[0] == fs@[0]@ && vs[1] == fs@[1]@ && vs[2] == fs@[2]@ && vs[3] == fs@[3]@);
        assert(n == 6 ==> vs[5] == fs@[5]@);
        Some(c)
    }
}

} // verus!
