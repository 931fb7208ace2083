use vstd::prelude::*;

use crate::filemanager::{chapters_view, Chapter, ChapterView};

verus! {

/// The chapter holds the position strictly inside: it starts before it and ends after it.
pub open spec fn holds_strictly(c: ChapterView, position: i64) -> bool {
    c.start < position < c.end
}

/// The index of the first chapter that holds the position strictly inside, if any.
pub open spec fn chapter_strictly_at(chapters: Seq<ChapterView>, position: i64) -> Option<int>
    decreases chapters.len(),
{
    if chapters.len() == 0 {
        None
    } else {
        match chapter_strictly_at(chapters.drop_last(), position) {
            Some(i) => Some(i),
            None => if holds_strictly(chapters.last(), position) {
                Some(chapters.len() - 1)
            } else {
                None
            },
        }
    }
}

proof fn lemma_prefix(chapters: Seq<ChapterView>, position: i64, n: int)
    requires
        0 <= n <= chapters.len(),
        chapter_strictly_at(chapters.take(n), position) is Some,
    ensures
        chapter_strictly_at(chapters, position) == chapter_strictly_at(chapters.take(n), position),
    decreases chapters.len() - n,
{
    if n < chapters.len() {
        assert(chapters.take(n + 1).drop_last() =~= chapters.take(n));
        lemma_prefix(chapters, position, n + 1);
    } else {
        assert(chapters.take(n) =~= chapters);
    }
}

/// The index of the first chapter that starts before `position` and ends after it.
pub fn get_current_chapter(chapters: &Vec<Chapter>, position: i64) -> (res: Option<usize>)
    ensures
        match res {
            Some(i) => chapter_strictly_at(chapters_view(chapters@), position) == Some(i as int),
            None => chapter_strictly_at(chapters_view(chapters@), position) is None,
        },
{
    let mut i: usize = 0;
    while i < chapters.len()
        invariant
            i <= chapters@.len(),
            chapter_strictly_at(chapters_view(chapters@).take(i as int), position) is None,
        decreases chapters@.len() - i,
    {
        let chapter = &chapters[i];
        assert(chapters_view(chapters@).take(i as int + 1).drop_last() =~= chapters_view(chapters@).take(i as int));
        if position > chapter.start && position < chapter.end {
            proof {
                lemma_prefix(chapters_view(chapters@), position, i as int + 1);
            }
            return Some(i);
        }
        i = i + 1;
    }
    assert(chapters_view(chapters@).take(i as int) =~= chapters_view(chapters@));
    None
}

/// The position to seek to when going 30 seconds back from `position`: never before 0.
pub fn play_back(position: u64) -> (res: u64)
    ensures
        res == (if position > 30 { position - 30 } else { 0 }),
{
    if position > 30 {
        position - 30
    } else {
        0
    }
}

} // verus!
