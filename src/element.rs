//! The kinds of element that a lesson page is built from.

use vstd::prelude::*;
use vstd::string::*;

verus! {

#[allow(non_camel_case_types)]
#[derive(Debug, Clone, Copy, PartialEq, Eq, Structural)]
pub enum ElementType {
    h1,
    p,
    img,
}

impl ElementType {
    /// The element type named `string`: `h1`, `p` or `img`.
    pub fn from_string(string: &str) -> (r: Result<ElementType, &str>)
        ensures
            string@ == "h1"@ ==> r == Ok::<ElementType, &str>(ElementType::h1),
            string@ == "p"@ ==> r == Ok::<ElementType, &str>(ElementType::p),
            string@ == "img"@ ==> r == Ok::<ElementType, &str>(ElementType::img),
            string@ != "h1"@ && string@ != "p"@ && string@ != "img"@ ==> (r matches Err(e)
                && e@ == "Invalid element type"@),
    {
        proof {
            reveal_strlit("h1");
            reveal_strlit("p");
            reveal_strlit("img");
            assert("h1"@.len() != "p"@.len() && "h1"@.len() != "img"@.len() && "p"@.len()
                != "img"@.len());
        }
        let s = String::from_str(string);
        if s == String::from_str("h1") {
            Ok(ElementType::h1)
        } else if s == String::from_str("p") {
            Ok(ElementType::p)
        } else if s == String::from_str("img") {
            Ok(ElementType::img)
        } else {
            Err("Invalid element type")
        }
    }
}

} // verus!
