use vstd::prelude::*;

verus! {

/// A person, as produced by the functions that the panic-to-result
/// rewriting yields.
#[derive(Debug)]
pub struct Person {
    pub name: String,
    pub age: u32,
}

/// The message of the error returned for people over thirty.
pub open spec fn too_old_message() -> Seq<char> {
    "I hope I die before I get old"@
}

/// The message of the error that `always_errs_creating_person` returns.
pub open spec fn refusal_message() -> Seq<char> {
    "don't wanna create person"@
}

/// Creates a person, failing with a message when `age` is over thirty.
pub fn create_person(name: String, age: u32) -> (res: Result<Person, String>)
    ensures
        age > 30 ==> (res matches Err(m) && m@ == too_old_message()),
        age <= 30 ==> (res matches Ok(p) && p.name@ == name@ && p.age == age),
{
    if age > 30 {
        return Err(String::from_str("I hope I die before I get old"));
    }
    Ok(Person { name, age })
}

/// Never creates a person: the loop of its body fails on its first turn.
pub fn always_errs_creating_person(name: String, age: u32) -> (res: Result<Person, String>)
    ensures
        res matches Err(m) && m@ == refusal_message(),
{
    Err(String::from_str("don't wanna create person"))
}

} // verus!
