use vstd::prelude::*;

verus! {

/// Reply of the `go` command, whatever it is given.
pub fn go() -> (r: String)
    ensures
        r@ == "No"@,
{
    String::from_str("No")
}

/// Reply of the `source` command: the address of the bot's repository.
pub fn source() -> (r: String)
    ensures
        r@ == "https://github.com/kangalioo/rustbot"@,
{
    String::from_str("https://github.com/kangalioo/rustbot")
}

/// Whether the author of a request is the configured owner.
pub fn is_owner(author_id: u64, owner_id: u64) -> (r: bool)
    ensures
        r == (author_id == owner_id),
{
    author_id == owner_id
}

} // verus!
