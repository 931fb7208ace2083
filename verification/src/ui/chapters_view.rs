use vstd::prelude::*;

use crate::util::{time_int_to_string, time_text};

verus! {

/// The rows of the chapter list: for each chapter, its title and its length as hours,
/// minutes and seconds.
pub fn chapter_rows(chapters: &Vec<(String, i64)>) -> (rows: Vec<(String, String)>)
    requires
        forall|i: int| 0 <= i < chapters@.len() ==> (#[trigger] chapters@[i]).1 >= 0,
    ensures
        rows@.len() == chapters@.len(),
        forall|i: int| 0 <= i < rows@.len() ==> (#[trigger] rows@[i]).0@ == chapters@[i].0@
            && rows@[i].1@ == time_text(chapters@[i].1 as u64),
{
    let mut rows: Vec<(String, String)> = Vec::new();
    let mut i: usize = 0;
    while i < chapters.len()
        invariant
            i <= chapters@.len(),
            rows@.len() == i,
            forall|j: int| 0 <= j < chapters@.len() ==> (#[trigger] chapters@[j]).1 >= 0,
            forall|j: int| 0 <= j < i ==> (#[trigger] rows@[j]).0@ == chapters@[j].0@
                && rows@[j].1@ == time_text(chapters@[j].1 as u64),
        decreases chapters@.len() - i,
    {
        let (title, duration) = &chapters[i];
        assert(*duration >= 0);
        rows.push((title.clone(), time_int_to_string(*duration as u64)));
        i = i + 1;
    }
    rows
}

} // verus!
