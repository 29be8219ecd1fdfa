use vstd::prelude::*;
use vstd::string::*;

verus! {

/// The suffix that marks a temporary file of this tool.
pub open spec fn spec_suffix() -> Seq<char> {
    seq!['.', 't', 'm', 'p']
}

/// The file name built from an identifier.
pub open spec fn spec_temp_file_name(id: Seq<char>) -> Seq<char> {
    id + spec_suffix()
}

/// Relies on uuid's `Uuid::new_v4` and its hyphenated form: a fresh random
/// 128-bit identifier written as 36 characters.
#[verifier::external_body]
fn random_identifier() -> (r: String)
    ensures
        r@.len() == 36,
{
    uuid::Uuid::new_v4().hyphenated().to_string()
}

/// The file name for the identifier `id`: the identifier followed by `.tmp`.
pub fn temp_file_name(id: &str) -> (r: String)
    ensures
        r@ == spec_temp_file_name(id@),
{
    let r = String::from_str(id).concat(".tmp");
    proof {
        reveal_strlit(".tmp");
    }
    r
}

/// A fresh temporary file name: a random identifier followed by `.tmp`.
pub fn new_temp_file_name() -> (r: String)
    ensures
        exists|id: Seq<char>| id.len() == 36 && r@ == spec_temp_file_name(id),
{
    let id = random_identifier();
    temp_file_name(id.as_str())
}

} // verus!
