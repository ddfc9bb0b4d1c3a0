//! Where the shims live, what each of them holds, and the shell snippet that
//! puts them on the search path.
use vstd::prelude::*;
use vstd::string::StringExecFns;

use crate::config::Config;
use crate::error::PintasError;
use crate::order::same_text;

verus! {

/// The directory of the alias manager under the home directory `home`.
pub open spec fn pintas_dir_of(home: Seq<char>) -> Seq<char> {
    home + "/.pintas"@
}

/// The directory of the shims under the home directory `home`.
pub open spec fn shims_dir_of(home: Seq<char>) -> Seq<char> {
    pintas_dir_of(home) + "/shims"@
}

/// The script of the shim for `alias`: it hands the call, with all its
/// arguments, to an internal run of `alias` by the manager at `exe`.
pub open spec fn shim_text(exe: Seq<char>, alias: Seq<char>) -> Seq<char> {
    "#!/bin/sh\nexec \""@ + exe + "\" run --internal \""@ + alias + "\" \"$@\""@
}

/// The snippet that puts the shims directory `dir` on a bash search path.
pub open spec fn bash_snippet(dir: Seq<char>) -> Seq<char> {
    "# pintas shell integration for bash\n#\n# Add the following line to your ~/.bashrc or ~/.profile:\n#\n  export PATH=\""@
        + dir + "\":$PATH\n"@
}

/// The directory of the alias manager under the home directory `home`.
pub fn get_pintas_dir(home: &str) -> (r: String)
    ensures
        r@ == pintas_dir_of(home@),
{
    let mut r = String::from_str(home);
    r.append("/.pintas");
    r
}

/// The directory of the shims under the home directory `home`.
pub fn get_shims_dir(home: &str) -> (r: String)
    ensures
        r@ == shims_dir_of(home@),
{
    let mut r = get_pintas_dir(home);
    r.append("/shims");
    r
}

/// The script of the shim for `alias`, for the manager at `exe`.
pub fn shim_script(exe: &str, alias: &str) -> (r: String)
    ensures
        r@ == shim_text(exe@, alias@),
{
    let mut r = String::from_str("#!/bin/sh\nexec \"");
    r.append(exe);
    r.append("\" run --internal \"");
    r.append(alias);
    r.append("\" \"$@\"");
    r
}

/// One shim: the file name and the script that it holds.
#[derive(Debug, Clone, PartialEq, Eq)]
pub struct Shim {
    pub name: String,
    pub script: String,
}

/// The shims for the table: one per alias, in name order, each named after
/// its alias and holding the script that runs it through the manager at
/// `exe`.
pub fn shim_plan(config: &Config, exe: &str) -> (r: Vec<Shim>)
    ensures
        r@.len() == config.pairs().len(),
        forall|i: int|
            0 <= i < r@.len() ==> (#[trigger] r@[i]).name@ == config.pairs()[i].0 && r@[i].script@
                == shim_text(exe@, config.pairs()[i].0),
{
    let aliases = config.aliases();
    let mut shims: Vec<Shim> = Vec::new();
    let mut i: usize = 0;
    while i < aliases.len()
        invariant
            aliases@.len() == config.pairs().len(),
            forall|j: int|
                0 <= j < aliases@.len() ==> (#[trigger] aliases@[j]).name@ == config.pairs()[j].0,
            i <= aliases@.len(),
            shims@.len() == i,
            forall|j: int|
                0 <= j < i ==> (#[trigger] shims@[j]).name@ == config.pairs()[j].0 && shims@[j].script@
                    == shim_text(exe@, config.pairs()[j].0),
        decreases aliases@.len() - i,
    {
        let name = aliases[i].name.as_str();
        assert(aliases@[i as int].name@ == config.pairs()[i as int].0);
        shims.push(Shim { name: String::from_str(name), script: shim_script(exe, name) });
        i = i + 1;
    }
    shims
}

/// The shell snippet for `shell` that puts the shims directory `shims_dir`
/// on the search path; bash is the one shell with a snippet.
pub fn init_shell(shell: &str, shims_dir: &str) -> (r: Result<String, PintasError>)
    ensures
        shell@ == "bash"@ ==> r is Ok && r->Ok_0@ == bash_snippet(shims_dir@),
        shell@ != "bash"@ ==> r is Err && (r->Err_0 matches PintasError::UnsupportedShell(s) && s@
            == shell@),
{
    if same_text(shell, "bash") {
        let mut r = String::from_str("# pintas shell integration for bash\n#\n# Add the following line to your ~/.bashrc or ~/.profile:\n#\n  export PATH=\"");
        r.append(shims_dir);
        r.append("\":$PATH\n");
        Ok(r)
    } else {
        Err(PintasError::UnsupportedShell(String::from_str(shell)))
    }
}

} // verus!
