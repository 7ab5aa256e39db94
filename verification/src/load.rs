use vstd::prelude::*;
use vstd::string::*;

verus! {

/// What loading a module's source comes to once the load hooks were asked.
#[derive(Debug)]
pub enum LoadStep {
    /// The source text is known.
    Loaded(String),
    /// The text has to be read from the file system.
    ReadFile,
}

/// Decides where the source of a resolved path comes from: a load hook that
/// supplied content wins; without one an ignored path has empty text, which
/// keeps its place in the graph and contributes no code; any other path is
/// read from the file system.
pub fn load_source(hook_code: Option<String>, ignored: bool) -> (r: LoadStep)
    ensures
        hook_code is Some ==> r == LoadStep::Loaded(hook_code.unwrap()),
        hook_code is None && ignored ==> r is Loaded && r->Loaded_0@.len() == 0,
        hook_code is None && !ignored ==> r is ReadFile,
{
    match hook_code {
        Some(code) => LoadStep::Loaded(code),
        None => if ignored {
            LoadStep::Loaded(String::new())
        } else {
            LoadStep::ReadFile
        },
    }
}

} // verus!
