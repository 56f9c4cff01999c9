//! Text served by the monitor's web pages.
use vstd::prelude::*;

use crate::text::{decimal, push_decimal};

verus! {

/// Who greets the web page.
pub struct Person {
    pub name: String,
    pub age: Option<u8>,
}

/// The greeting for `person`: with the age when it is given.
pub open spec fn greeting(person: Person) -> Seq<char> {
    match person.age {
        Some(age) => "Hello, "@ + decimal(age as nat) + " year old named "@ + person.name@ + "!"@,
        None => "Hello "@ + person.name@ + "!"@,
    }
}

/// Greets `person`.
pub fn hello(person: Person) -> (r: String)
    ensures
        r@ == greeting(person),
{
    let mut s = String::new();
    if let Some(age) = person.age {
        s.append("Hello, ");
        push_decimal(&mut s, age as u32);
        s.append(" year old named ");
        s.append(person.name.as_str());
        s.append("!");
    } else {
        s.append("Hello ");
        s.append(person.name.as_str());
        s.append("!");
    }
    assert(s@ =~= greeting(person));
    s
}

} // verus!
