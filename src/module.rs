//! Module descriptors and the modules built from them.

use vstd::prelude::*;
use vstd::string::*;
use crate::text::{
    base64_of, encode_base64, keys_distinct, lookup, lower_of, lowercase, pairs_view,
    parse_string_table, same_text, string_table_of, table_lookup, toml_error_message,
};

verus! {

/// The kind of payload a module carries.
#[derive(Clone, Copy, Debug, PartialEq, Eq, Structural)]
pub enum ExecType {
    Bin,
    Python,
    Bash,
}

/// The kind named by an already lowercased `module_type` value.
pub open spec fn exec_type_of(l: Seq<char>) -> Option<ExecType> {
    if l == "bin"@ {
        Some(ExecType::Bin)
    } else if l == "bash"@ || l == "sh"@ {
        Some(ExecType::Bash)
    } else if l == "py"@ || l == "python"@ {
        Some(ExecType::Python)
    } else {
        None
    }
}

impl ExecType {
    /// Reads a kind from a `module_type` value that is already lowercase.
    pub fn from_lowered(l: &str) -> (r: Option<ExecType>)
        ensures
            r == exec_type_of(l@),
    {
        if same_text(l, "bin") {
            Some(ExecType::Bin)
        } else if same_text(l, "bash") || same_text(l, "sh") {
            Some(ExecType::Bash)
        } else if same_text(l, "py") || same_text(l, "python") {
            Some(ExecType::Python)
        } else {
            None
        }
    }

    /// Reads a kind from a `module_type` value, ignoring case.
    pub fn from_name(s: &str) -> (r: Option<ExecType>)
        ensures
            r == exec_type_of(lower_of(s@)),
    {
        let l = lowercase(s);
        ExecType::from_lowered(l.as_str())
    }
}

/// Why a module could not be built.
#[derive(Clone, Debug)]
pub enum ModuleError {
    /// A descriptor or a command table is not a table of strings; the
    /// parser's message is kept.
    Parse(String),
    /// The descriptor has no `module_type` entry.
    MissingModuleType,
    /// The descriptor has no `exec_path` entry.
    MissingExecPath,
    /// The descriptor names a kind that does not exist.
    UnknownModuleType(String),
    /// The payload file of a script or command module could not be read.
    PayloadUnavailable,
    /// The descriptor file itself could not be read.
    DescriptorUnavailable,
}

/// The abstract counterpart of `ModuleError`, without the parser's message.
pub enum ModuleFault {
    Parse,
    MissingModuleType,
    MissingExecPath,
    UnknownModuleType(Seq<char>),
    PayloadUnavailable,
    DescriptorUnavailable,
}

impl ModuleError {
    pub open spec fn fault(&self) -> ModuleFault {
        match self {
            ModuleError::Parse(_) => ModuleFault::Parse,
            ModuleError::MissingModuleType => ModuleFault::MissingModuleType,
            ModuleError::MissingExecPath => ModuleFault::MissingExecPath,
            ModuleError::UnknownModuleType(s) => ModuleFault::UnknownModuleType(s@),
            ModuleError::PayloadUnavailable => ModuleFault::PayloadUnavailable,
            ModuleError::DescriptorUnavailable => ModuleFault::DescriptorUnavailable,
        }
    }
}

/// A parsed module descriptor: the kind of module and where its payload lies.
pub struct ModuleProps {
    pub module_type: ExecType,
    pub exec_path: String,
}

/// What a descriptor text declares: its kind and payload path, or the fault.
pub open spec fn descriptor_of(text: Seq<char>) -> Result<(ExecType, Seq<char>), ModuleFault> {
    match string_table_of(text) {
        None => Err(ModuleFault::Parse),
        Some(t) => match table_lookup(t, "module_type"@) {
            None => Err(ModuleFault::MissingModuleType),
            Some(m) => match exec_type_of(lower_of(m)) {
                None => Err(ModuleFault::UnknownModuleType(m)),
                Some(k) => match table_lookup(t, "exec_path"@) {
                    None => Err(ModuleFault::MissingExecPath),
                    Some(p) => Ok((k, p)),
                },
            },
        },
    }
}

/// The position of the last `.` in a file name, if any.
pub open spec fn last_dot(f: Seq<char>) -> Option<int>
    decreases f.len(),
{
    if f.len() == 0 {
        None
    } else if f.last() == '.' {
        Some(f.len() - 1)
    } else {
        last_dot(f.drop_last())
    }
}

/// The registry key of a file name: its stem, where its extension is `mod`
/// in any case. A name that starts with its only `.` has no extension.
pub open spec fn module_key_of(f: Seq<char>) -> Option<Seq<char>> {
    match last_dot(f) {
        Some(d) => if d > 0 && lower_of(f.subrange(d + 1, f.len() as int)) == "mod"@ {
            Some(f.subrange(0, d))
        } else {
            None
        },
        None => None,
    }
}

proof fn lemma_last_dot_bounds(f: Seq<char>)
    ensures
        match last_dot(f) {
            Some(d) => 0 <= d < f.len() && f[d] == '.' && forall|j: int|
                d < j < f.len() ==> f[j] != '.',
            None => forall|j: int| 0 <= j < f.len() ==> f[j] != '.',
        },
    decreases f.len(),
{
    if f.len() > 0 && f.last() != '.' {
        lemma_last_dot_bounds(f.drop_last());
        assert(forall|j: int| 0 <= j < f.len() - 1 ==> f.drop_last()[j] == f[j]);
    }
}

/// Reads a document that must be a table of strings.
fn read_table(text: &str) -> (r: Result<Vec<(String, String)>, ModuleError>)
    ensures
        match r {
            Ok(v) => string_table_of(text@) == Some(pairs_view(v@)) && keys_distinct(pairs_view(v@)),
            Err(e) => string_table_of(text@) is None && e.fault() == ModuleFault::Parse,
        },
{
    match parse_string_table(text) {
        Ok(Some(t)) => Ok(t),
        Ok(None) => Err(ModuleError::Parse(String::from_str("every value must be a string"))),
        Err(e) => Err(ModuleError::Parse(toml_error_message(&e))),
    }
}

impl ModuleProps {
    /// Parses a descriptor: a TOML table with the string entries
    /// `module_type` (one of `bin`, `bash`, `sh`, `py`, `python`, in any case)
    /// and `exec_path`.
    pub fn from_toml(text: &str) -> (r: Result<ModuleProps, ModuleError>)
        ensures
            match r {
                Ok(p) => descriptor_of(text@) == Ok::<(ExecType, Seq<char>), ModuleFault>((p.module_type, p.exec_path@)),
                Err(e) => descriptor_of(text@) == Err::<(ExecType, Seq<char>), ModuleFault>(e.fault()),
            },
    {
        proof {
            reveal_strlit("module_type");
            reveal_strlit("exec_path");
        }
        let t = match read_table(text) {
            Ok(t) => t,
            Err(e) => return Err(e),
        };
        let m = match lookup(&t, "module_type") {
            Some(m) => m,
            None => return Err(ModuleError::MissingModuleType),
        };
        let k = match ExecType::from_name(m.as_str()) {
            Some(k) => k,
            None => return Err(ModuleError::UnknownModuleType(m.clone())),
        };
        let p = match lookup(&t, "exec_path") {
            Some(p) => p,
            None => return Err(ModuleError::MissingExecPath),
        };
        Ok(ModuleProps { module_type: k, exec_path: p.clone() })
    }

    /// Whether building the module needs the text of its payload file.
    pub fn reads_payload(&self) -> (r: bool)
        ensures
            r == (self.module_type != ExecType::Bin),
    {
        !matches!(self.module_type, ExecType::Bin)
    }

    /// The registry key for a file in the module directory: the file's stem
    /// where its extension is `mod` (in any case), and `None` for any other file.
    pub fn check_filename(file_name: &str) -> (r: Option<String>)
        ensures
            match r {
                Some(k) => module_key_of(file_name@) == Some(k@),
                None => module_key_of(file_name@) is None,
            },
    {
        proof {
            lemma_last_dot_bounds(file_name@);
        }
        let n = file_name.unicode_len();
        let mut i: usize = n;
        assert(file_name@.subrange(0, n as int) =~= file_name@);
        while i > 0
            invariant
                n == file_name@.len(),
                i <= n,
                forall|j: int| i <= j < n ==> file_name@[j] != '.',
                last_dot(file_name@) == last_dot(file_name@.subrange(0, i as int)),
            ensures
                i <= n,
                last_dot(file_name@) == last_dot(file_name@.subrange(0, i as int)),
                i > 0 ==> file_name@[i - 1] == '.',
            decreases i,
        {
            let ghost pre = file_name@.subrange(0, i as int);
            if file_name.get_char(i - 1) == '.' {
                break;
            }
            assert(pre.drop_last() =~= file_name@.subrange(0, i - 1));
            i = i - 1;
        }
        if i <= 1 {
            proof {
                if i == 0 {
                    assert(file_name@.subrange(0, 0).len() == 0);
                } else {
                    assert(file_name@.subrange(0, 1).last() == file_name@[0]);
                }
            }
            return None;
        }
        let d: usize = i - 1;
        proof {
            reveal_strlit("mod");
            assert(file_name@.subrange(0, i as int).last() == file_name@[d as int]);
        }
        let ext = lowercase(file_name.substring_char(i, n));
        assert(last_dot(file_name@) == Some(d as int));
        if same_text(ext.as_str(), "mod") {
            let stem = file_name.substring_char(0, d);
            let k = stem.to_owned();
            assert(k@ == file_name@.subrange(0, d as int));
            Some(k)
        } else {
            None
        }
    }
}

/// The payload of a module, one variant per kind.
#[derive(Clone, Debug)]
pub enum ModuleContent {
    /// Named shell commands, in the order the payload file declares them;
    /// they run in this order.
    Shell(Vec<(String, String)>),
    /// The path of a binary to stage and run.
    Binary(String),
    /// The body of a Python script.
    Python(String),
}

/// The abstract counterpart of `ModuleContent`.
pub enum ContentView {
    Shell(Seq<(Seq<char>, Seq<char>)>),
    Binary(Seq<char>),
    Python(Seq<char>),
}

impl ModuleContent {
    pub open spec fn view(&self) -> ContentView {
        match self {
            ModuleContent::Shell(v) => ContentView::Shell(pairs_view(v@)),
            ModuleContent::Binary(p) => ContentView::Binary(p@),
            ModuleContent::Python(s) => ContentView::Python(s@),
        }
    }
}

/// A module: its content decides its kind, so the two cannot disagree.
#[derive(Clone, Debug)]
pub struct Module {
    pub content: ModuleContent,
}

/// The content built from a descriptor's kind and path and the text of its
/// payload file, where it could be read.
pub open spec fn content_of(kind: ExecType, path: Seq<char>, payload: Option<Seq<char>>) -> Result<
    ContentView,
    ModuleFault,
> {
    match kind {
        ExecType::Bin => Ok(ContentView::Binary(path)),
        ExecType::Python => match payload {
            Some(s) => Ok(ContentView::Python(s)),
            None => Err(ModuleFault::PayloadUnavailable),
        },
        ExecType::Bash => match payload {
            Some(s) => match string_table_of(s) {
                Some(t) => Ok(ContentView::Shell(t)),
                None => Err(ModuleFault::Parse),
            },
            None => Err(ModuleFault::PayloadUnavailable),
        },
    }
}

pub open spec fn opt_view(o: Option<String>) -> Option<Seq<char>> {
    match o {
        Some(s) => Some(s@),
        None => None,
    }
}

/// The shell command that runs a Python script: the script travels base64
/// encoded, so its own quotes and newlines never reach the remote shell.
pub open spec fn python_invocation(script: Seq<char>) -> Seq<char> {
    "python2 -c \"exec('"@ + base64_of(script) + "'.decode('base64'))\""@
}

impl Module {
    pub open spec fn view(&self) -> ContentView {
        self.content.view()
    }

    /// Command names are unique within a shell module.
    pub open spec fn wf(&self) -> bool {
        match self.view() {
            ContentView::Shell(t) => keys_distinct(t),
            _ => true,
        }
    }

    /// Builds a module from its descriptor and the text of its payload file
    /// (`None` where it could not be read; a binary module reads none).
    pub fn new(props: ModuleProps, payload: Option<String>) -> (r: Result<Module, ModuleError>)
        ensures
            match r {
                Ok(m) => m.wf() && content_of(props.module_type, props.exec_path@, opt_view(payload)) == Ok::<ContentView, ModuleFault>(m@),
                Err(e) => content_of(props.module_type, props.exec_path@, opt_view(payload)) == Err::<ContentView, ModuleFault>(e.fault()),
            },
    {
        match props.module_type {
            ExecType::Bin => Ok(Module { content: ModuleContent::Binary(props.exec_path) }),
            ExecType::Python => match payload {
                Some(s) => Ok(Module { content: ModuleContent::Python(s) }),
                None => Err(ModuleError::PayloadUnavailable),
            },
            ExecType::Bash => match payload {
                Some(s) => match read_table(s.as_str()) {
                    Ok(t) => Ok(Module { content: ModuleContent::Shell(t) }),
                    Err(e) => Err(e),
                },
                None => Err(ModuleError::PayloadUnavailable),
            },
        }
    }

    /// The kind of this module, read from its content.
    pub fn module_type(&self) -> (r: ExecType)
        ensures
            r == match self@ {
                ContentView::Shell(_) => ExecType::Bash,
                ContentView::Binary(_) => ExecType::Bin,
                ContentView::Python(_) => ExecType::Python,
            },
    {
        match &self.content {
            ModuleContent::Shell(_) => ExecType::Bash,
            ModuleContent::Binary(_) => ExecType::Bin,
            ModuleContent::Python(_) => ExecType::Python,
        }
    }

    pub fn content(&self) -> (r: &ModuleContent)
        ensures
            r@ == self@,
    {
        &self.content
    }
}

/// Builds the remote command that runs a Python script.
pub fn python_command(script: &str) -> (r: String)
    ensures
        r@ == python_invocation(script@),
{
    let encoded = encode_base64(script);
    let mut r = String::from_str("python2 -c \"exec('");
    r.append(encoded.as_str());
    r.append("'.decode('base64'))\"");
    r
}

} // verus!
