use vstd::prelude::*;

use crate::model::Answer;

verus! {

/// The first position in `dict` whose word is `word`, if any: the entry that a lookup by
/// word returns.
pub fn find_word(dict: &Vec<Answer>, word: &String) -> (r: Option<usize>)
    ensures
        match r {
            Some(i) => i < dict.len() && dict@[i as int].word@ == word@
                && forall|j: int| 0 <= j < i ==> (#[trigger] dict@[j]).word@ != word@,
            None => forall|j: int| 0 <= j < dict.len() ==> (#[trigger] dict@[j]).word@ != word@,
        },
{
    let mut i: usize = 0;
    while i < dict.len()
        invariant
            i <= dict.len(),
            forall|j: int| 0 <= j < i ==> (#[trigger] dict@[j]).word@ != word@,
        decreases dict.len() - i,
    {
        if dict[i].word == *word {
            return Some(i);
        }
        i = i + 1;
    }
    None
}

} // verus!
