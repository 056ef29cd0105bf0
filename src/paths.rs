use vstd::prelude::*;

verus! {

/// The path of the file `name` inside the directory `dir`.
pub uninterp spec fn joined_path(dir: Seq<char>, name: Seq<char>) -> Seq<char>;

/// Relies on Path::join: `dir` followed by `name` with the platform's separator.
#[verifier::external_body]
fn join(dir: &str, name: &str) -> (r: String)
    ensures
        r@ == joined_path(dir@, name@),
{
    std::path::Path::new(dir).join(name).to_string_lossy().into_owned()
}

/// The file that holds the credential, inside the configuration directory.
pub fn token_path(config_dir: &str) -> (r: String)
    ensures
        r@ == joined_path(config_dir@, "token"@),
{
    join(config_dir, "token")
}

/// The file that holds the presets, inside the configuration directory.
pub fn statuses_path(config_dir: &str) -> (r: String)
    ensures
        r@ == joined_path(config_dir@, "statuses.json"@),
{
    join(config_dir, "statuses.json")
}

} // verus!
