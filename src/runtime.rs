//! The runtimes a tool runs in: where each lives, what it adds to the
//! search path and the environment, and the identity that names it.
use vstd::prelude::*;
use vstd::utf8::encode_utf8;
use crate::config::{RuntimeConfig, push_bytes};
use crate::digest::{sha1_hex, sha1_hex_of};
use crate::env::env_set;
use crate::errors::{Error, ErrorKind};
use crate::order::same_text;
use crate::pattern::{field_value, pairs_view};
use crate::text::{append_str, to_uppercase, upper_of};
use crate::vars::{join, join_path};

verus! {

/// The kinds of runtime there are.
#[derive(Clone, Copy, Debug, PartialEq, Eq, Structural)]
pub enum RuntimeKind {
    Python,
    JavaScript,
}

/// The kind of runtime a type name stands for.
pub open spec fn runtime_kind_of(name: Seq<char>) -> Option<RuntimeKind> {
    if name == "python"@ {
        Some(RuntimeKind::Python)
    } else if name == "javascript"@ {
        Some(RuntimeKind::JavaScript)
    } else {
        None
    }
}

/// What a runtime's identity is the digest of: its type, a zero byte, and
/// for Python the chosen flavor (`python3` by default).
pub open spec fn runtime_digest_input(kind: RuntimeKind, flavor: Option<Seq<char>>) -> Seq<u8> {
    match kind {
        RuntimeKind::Python => encode_utf8("python"@).push(0u8) + encode_utf8(match flavor {
            Some(f) => f,
            None => "python3"@,
        }),
        RuntimeKind::JavaScript => encode_utf8("javascript"@).push(0u8),
    }
}

/// A runtime bound to a tool.
pub struct Runtime {
    kind: RuntimeKind,
    flavor: Option<String>,
    id: String,
    path: String,
}

impl Runtime {
    /// Whether this runtime is the one of type `name`, configured by
    /// `config`, living under `cache_dir`.
    pub open spec fn created_from(&self, name: Seq<char>, config: RuntimeConfig, cache_dir: Seq<char>) -> bool {
        &&& runtime_kind_of(name) == Some(self.kind())
        &&& self.flavor_spec() == match config.flavor { Some(f) => Some(f@), None => None::<Seq<char>> }
        &&& self.id_spec() == sha1_hex_of(runtime_digest_input(self.kind(), self.flavor_spec()))
        &&& self.path_spec() == join_path(join_path(cache_dir, "rt"@), self.id_spec())
    }

    pub closed spec fn kind(&self) -> RuntimeKind {
        self.kind
    }

    pub closed spec fn flavor_spec(&self) -> Option<Seq<char>> {
        match self.flavor {
            Some(f) => Some(f@),
            None => None,
        }
    }

    pub closed spec fn id_spec(&self) -> Seq<char> {
        self.id@
    }

    pub closed spec fn path_spec(&self) -> Seq<char> {
        self.path@
    }

    /// Binds a runtime of the type named `kind_name`, living under
    /// `<cache_dir>/rt/<id>`. An unknown type is not found.
    pub fn create(kind_name: &str, config: &RuntimeConfig, cache_dir: &str) -> (r: Result<Runtime, Error>)
        ensures
            r is Ok <==> runtime_kind_of(kind_name@) is Some,
            r is Err ==> r->Err_0.kind == ErrorKind::NotFound,
            r is Ok ==> r->Ok_0.created_from(kind_name@, *config, cache_dir@),
    {
        let kind = if same_text(kind_name, "python") {
            RuntimeKind::Python
        } else if same_text(kind_name, "javascript") {
            RuntimeKind::JavaScript
        } else {
            let mut m = "Could not find runtime '".to_owned();
            append_str(&mut m, kind_name);
            append_str(&mut m, "'");
            return Err(Error { kind: ErrorKind::NotFound, message: m });
        };
        let flavor = match &config.flavor {
            Some(f) => Some(f.clone()),
            None => None,
        };
        let mut data: Vec<u8> = Vec::new();
        match kind {
            RuntimeKind::Python => {
                push_bytes(&mut data, "python");
                data.push(0u8);
                match &flavor {
                    Some(f) => push_bytes(&mut data, f.as_str()),
                    None => push_bytes(&mut data, "python3"),
                }
            },
            RuntimeKind::JavaScript => {
                push_bytes(&mut data, "javascript");
                data.push(0u8);
            },
        }
        let ghost fl = crate::report::opt_view(flavor);
        assert(data@ =~= runtime_digest_input(kind, fl));
        let id = sha1_hex(&data);
        let rt_dir = join(cache_dir, "rt");
        let path = join(rt_dir.as_str(), id.as_str());
        Ok(Runtime { kind, flavor, id, path })
    }

    /// The runtime's identity.
    pub fn id(&self) -> (r: &str)
        ensures
            r@ == self.id_spec(),
    {
        self.id.as_str()
    }

    /// Where the runtime lives.
    pub fn get_path(&self) -> (r: &str)
        ensures
            r@ == self.path_spec(),
    {
        self.path.as_str()
    }

    /// The runtime's type name.
    pub fn kind_name(&self) -> (r: &'static str)
        ensures
            r@ == match self.kind() {
                RuntimeKind::Python => "python"@,
                RuntimeKind::JavaScript => "javascript"@,
            },
    {
        match self.kind {
            RuntimeKind::Python => "python",
            RuntimeKind::JavaScript => "javascript",
        }
    }

    pub closed spec fn search_dir(&self) -> Seq<char> {
        match self.kind {
            RuntimeKind::Python => join_path(self.path@, "bin"@),
            RuntimeKind::JavaScript => join_path(self.path@, "node_modules/.bin"@),
        }
    }

    /// Adds the directory of the runtime's programs to `paths`: `bin` for
    /// Python, `node_modules/.bin` for JavaScript.
    pub fn add_search_paths(&self, paths: &mut Vec<String>)
        ensures
            final(paths)@.len() == old(paths)@.len() + 1,
            final(paths)@.subrange(0, old(paths)@.len() as int) == old(paths)@,
            final(paths)@.last()@ == self.search_dir(),
            self.search_dir() == match self.kind() {
                RuntimeKind::Python => join_path(self.path_spec(), "bin"@),
                RuntimeKind::JavaScript => join_path(self.path_spec(), "node_modules/.bin"@),
            },
    {
        let dir = match self.kind {
            RuntimeKind::Python => join(self.path.as_str(), "bin"),
            RuntimeKind::JavaScript => join(self.path.as_str(), "node_modules/.bin"),
        };
        paths.push(dir);
        assert(paths@.subrange(0, old(paths)@.len() as int) =~= old(paths)@);
    }

    /// Sets the runtime's variables in `env`. Python: `CALM_<FLAVOR>_VENV`,
    /// `_BIN` and `_LIB`, the flavor (`python` by default) in upper case.
    /// JavaScript: `NODE_PATH`, `CALM_JAVASCRIPT_BIN`, `_BASE` and
    /// `_PACKAGE_JSON`.
    pub fn update_env(&self, env: &mut Vec<(String, String)>)
        ensures
            forall|k: Seq<char>| #[trigger] field_value(pairs_view(final(env)@), k)
                == match runtime_var(self.kind(), self.flavor_spec(), self.path_spec(), k) {
                    Some(v) => Some(v),
                    None => field_value(pairs_view(old(env)@), k),
                },
    {
        let p = self.path.as_str();
        match self.kind {
            RuntimeKind::Python => {
                let name = match &self.flavor {
                    Some(f) => to_uppercase(f.as_str()),
                    None => to_uppercase("python"),
                };
                let mut venv = "CALM_".to_owned();
                append_str(&mut venv, name.as_str());
                let mut bin = venv.clone();
                let mut lib = venv.clone();
                append_str(&mut venv, "_VENV");
                append_str(&mut bin, "_BIN");
                append_str(&mut lib, "_LIB");
                let bin_dir = join(p, "bin");
                let lib_dir = join(p, "lib");
                env_set(env, venv.as_str(), p);
                env_set(env, bin.as_str(), bin_dir.as_str());
                env_set(env, lib.as_str(), lib_dir.as_str());
            },
            RuntimeKind::JavaScript => {
                let modules = join(p, "node_modules");
                let bin_dir = join(p, "node_modules/.bin");
                let package = join(p, "package.json");
                env_set(env, "NODE_PATH", modules.as_str());
                env_set(env, "CALM_JAVASCRIPT_BIN", bin_dir.as_str());
                env_set(env, "CALM_JAVASCRIPT_BASE", p);
                env_set(env, "CALM_JAVASCRIPT_PACKAGE_JSON", package.as_str());
            },
        }
    }
}

/// How a package is asked for: `name==version` for Python, `name@version`
/// for JavaScript.
pub open spec fn package_arg(kind: RuntimeKind, p: (Seq<char>, Seq<char>)) -> Seq<char> {
    match kind {
        RuntimeKind::Python => p.0 + "=="@ + p.1,
        RuntimeKind::JavaScript => p.0 + "@"@ + p.1,
    }
}

impl Runtime {
    /// The arguments that install the packages, in order.
    pub fn package_args(&self, packages: &Vec<(String, String)>) -> (r: Vec<String>)
        ensures
            r@.len() == packages@.len(),
            forall|i: int| 0 <= i < packages@.len() ==> #[trigger] r@[i]@
                == package_arg(self.kind(), (packages@[i].0@, packages@[i].1@)),
    {
        let mut r: Vec<String> = Vec::new();
        let mut i: usize = 0;
        while i < packages.len()
            invariant
                i <= packages@.len(),
                r@.len() == i,
                forall|j: int| 0 <= j < i ==> #[trigger] r@[j]@
                    == package_arg(self.kind(), (packages@[j].0@, packages@[j].1@)),
            decreases packages@.len() - i,
        {
            let mut a = packages[i].0.clone();
            match self.kind {
                RuntimeKind::Python => append_str(&mut a, "=="),
                RuntimeKind::JavaScript => append_str(&mut a, "@"),
            }
            append_str(&mut a, packages[i].1.as_str());
            r.push(a);
            i += 1;
        }
        r
    }
}

/// The value a runtime gives variable `k`, if it sets it (the last setting
/// of a name wins).
pub open spec fn runtime_var(kind: RuntimeKind, flavor: Option<Seq<char>>, path: Seq<char>, k: Seq<char>) -> Option<Seq<char>> {
    match kind {
        RuntimeKind::Python => {
            let name = "CALM_"@ + upper_of(match flavor { Some(f) => f, None => "python"@ });
            if k == name + "_LIB"@ {
                Some(join_path(path, "lib"@))
            } else if k == name + "_BIN"@ {
                Some(join_path(path, "bin"@))
            } else if k == name + "_VENV"@ {
                Some(path)
            } else {
                None
            }
        },
        RuntimeKind::JavaScript => {
            if k == "CALM_JAVASCRIPT_PACKAGE_JSON"@ {
                Some(join_path(path, "package.json"@))
            } else if k == "CALM_JAVASCRIPT_BASE"@ {
                Some(path)
            } else if k == "CALM_JAVASCRIPT_BIN"@ {
                Some(join_path(path, "node_modules/.bin"@))
            } else if k == "NODE_PATH"@ {
                Some(join_path(path, "node_modules"@))
            } else {
                None
            }
        },
    }
}

} // verus!
