//! Choices made before a fetched script is handed to an interpreter: what
//! to run, and how. Spawning the interpreter, temp files and stdio are the
//! surrounding program's concern; the selection logic lives here.

use crate::error::GistCacheError;
use crate::text::{ends_with_str, is_suffix_of, str_eq};
use crate::types::{GistFile, GistFileV, GistInfo};
use crate::config::Config;
use vstd::prelude::*;

verus! {

/// Options for one script run.
pub struct RunOptions {
    /// Keep stdin attached for interactive scripts.
    pub interactive: bool,
    /// Display the content instead of executing it.
    pub preview: bool,
    /// Save the gist's files to the download folder.
    pub download: bool,
    /// Execute through a temporary file rather than a pipe.
    pub force_file_based: bool,
}

/// Everything needed to run one selected gist.
pub struct ScriptRunner {
    /// The gist to run.
    pub gist: GistInfo,
    /// The interpreter to run it with.
    pub interpreter: String,
    /// A wrapping command (such as a runner tool), if any.
    pub run_command: Option<String>,
    /// Whether the interpreter is a shell.
    pub is_shell: bool,
    /// How to run.
    pub options: RunOptions,
    /// Extra arguments handed to the script.
    pub args: Vec<String>,
    /// Where the cache and download directories live.
    pub config: Config,
}

/// The filename suffix a gist file should carry to suit the interpreter;
/// empty when the interpreter implies none.
pub open spec fn preferred_extension(interp: Seq<char>) -> Seq<char> {
    if interp == "bash"@ || interp == "sh"@ {
        ".sh"@
    } else if interp == "python"@ || interp == "python3"@ {
        ".py"@
    } else if interp == "ruby"@ {
        ".rb"@
    } else if interp == "node"@ {
        ".js"@
    } else if interp == "perl"@ {
        ".pl"@
    } else if interp == "php"@ {
        ".php"@
    } else if interp == "pwsh"@ || interp == "powershell"@ {
        ".ps1"@
    } else if interp == "ts-node"@ || interp == "deno"@ || interp == "bun"@ {
        ".ts"@
    } else {
        Seq::empty()
    }
}

/// The first file whose name ends with `ext`, if any.
pub open spec fn first_file_with_suffix(files: Seq<GistFileV>, ext: Seq<char>) -> Option<GistFileV>
    decreases files.len(),
{
    if files.len() == 0 {
        Option::None
    } else if is_suffix_of(ext, files[0].filename) {
        Option::Some(files[0])
    } else {
        first_file_with_suffix(files.drop_first(), ext)
    }
}

/// Which of a gist's files an interpreter should run: the only file if
/// there is one file, else the first whose name suits the interpreter,
/// else the first file.
pub open spec fn spec_select_main_file(files: Seq<GistFileV>, interp: Seq<char>) -> GistFileV
    recommends
        files.len() > 0,
{
    if files.len() == 1 {
        files[0]
    } else {
        let ext = preferred_extension(interp);
        if ext.len() > 0 {
            match first_file_with_suffix(files, ext) {
                Option::Some(f) => f,
                Option::None => files[0],
            }
        } else {
            files[0]
        }
    }
}

/// A first match at index `i` settles `first_file_with_suffix`.
proof fn lemma_first_suffix_at(files: Seq<GistFileV>, ext: Seq<char>, i: int)
    requires
        0 <= i < files.len(),
        is_suffix_of(ext, files[i].filename),
        forall|k: int| 0 <= k < i ==> !is_suffix_of(ext, files[k].filename),
    ensures
        first_file_with_suffix(files, ext) == Option::Some(files[i]),
    decreases i,
{
    if i > 0 {
        lemma_first_suffix_at(files.drop_first(), ext, i - 1);
    }
}

/// No match anywhere settles `first_file_with_suffix` to `None`.
proof fn lemma_first_suffix_none(files: Seq<GistFileV>, ext: Seq<char>)
    requires
        forall|k: int| 0 <= k < files.len() ==> !is_suffix_of(ext, files[k].filename),
    ensures
        first_file_with_suffix(files, ext) is None,
    decreases files.len(),
{
    if files.len() > 0 {
        lemma_first_suffix_none(files.drop_first(), ext);
    }
}

/// The suffix suiting the interpreter, as text.
fn preferred_ext_of(interp: &str) -> (r: &'static str)
    ensures
        r@ == preferred_extension(interp@),
{
    proof {
        reveal_strlit("");
    }
    if str_eq(interp, "bash") || str_eq(interp, "sh") {
        ".sh"
    } else if str_eq(interp, "python") || str_eq(interp, "python3") {
        ".py"
    } else if str_eq(interp, "ruby") {
        ".rb"
    } else if str_eq(interp, "node") {
        ".js"
    } else if str_eq(interp, "perl") {
        ".pl"
    } else if str_eq(interp, "php") {
        ".php"
    } else if str_eq(interp, "pwsh") || str_eq(interp, "powershell") {
        ".ps1"
    } else if str_eq(interp, "ts-node") || str_eq(interp, "deno") || str_eq(interp, "bun") {
        ".ts"
    } else {
        proof {
            assert(""@ =~= Seq::<char>::empty());
        }
        ""
    }
}

impl ScriptRunner {
    /// Bundle a selected gist with the interpreter decision and options.
    pub fn new(
        gist: GistInfo,
        interpreter: String,
        run_command: Option<String>,
        is_shell: bool,
        options: RunOptions,
        args: Vec<String>,
        config: Config,
    ) -> (r: Self)
        ensures
            r.gist@ == gist@,
            r.interpreter@ == interpreter@,
            match r.run_command {
                Option::Some(c) => run_command matches Option::Some(d) && c@ == d@,
                Option::None => run_command is None,
            },
            r.is_shell == is_shell,
            r.options.interactive == options.interactive,
            r.options.preview == options.preview,
            r.options.download == options.download,
            r.options.force_file_based == options.force_file_based,
            r.args@ == args@,
    {
        ScriptRunner { gist, interpreter, run_command, is_shell, options, args, config }
    }

    /// The file the interpreter should run.
    pub fn select_main_file(&self) -> (r: Result<&GistFile, GistCacheError>)
        requires
            self.gist.files@.len() > 0,
        ensures
            r matches Ok(f) && f@ == spec_select_main_file(self.gist@.files, self.interpreter@),
    {
        let ghost fv = self.gist@.files;
        if self.gist.files.len() == 1 {
            proof {
                assert(fv[0] == self.gist.files@[0]@);
            }
            return Ok(&self.gist.files[0]);
        }
        let ext = preferred_ext_of(self.interpreter.as_str());
        if !ext.is_empty() {
            let mut i: usize = 0;
            while i < self.gist.files.len()
                invariant
                    i <= self.gist.files.len(),
                    fv == self.gist@.files,
                    fv.len() == self.gist.files.len(),
                    fv.len() >= 2,
                    ext@ == preferred_extension(self.interpreter@),
                    ext@.len() > 0,
                    forall|k: int| 0 <= k < i ==> !is_suffix_of(ext@, fv[k].filename),
                decreases self.gist.files.len() - i,
            {
                proof {
                    assert(fv[i as int] == self.gist.files@[i as int]@);
                }
                if ends_with_str(self.gist.files[i].filename.as_str(), ext) {
                    proof {
                        lemma_first_suffix_at(fv, ext@, i as int);
                    }
                    return Ok(&self.gist.files[i]);
                }
                i = i + 1;
            }
            proof {
                lemma_first_suffix_none(fv, ext@);
                assert(fv[0] == self.gist.files@[0]@);
            }
            Ok(&self.gist.files[0])
        } else {
            proof {
                assert(fv[0] == self.gist.files@[0]@);
            }
            Ok(&self.gist.files[0])
        }
    }
}

} // verus!
