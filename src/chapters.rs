//! Chapters from the resources of the spine: ids by spine position,
//! titles, trimmed text and word counts.
use vstd::prelude::*;
use crate::mime::opt_view;
use crate::models::{chapter_wf, chapters_view, Chapter, ChapterView};
use crate::text::{count_words, decimal, push_decimal, trim, trim_chars, chars_of, string_of, word_count};

verus! {

/// What was read for one spine entry: the title found in its markup, if
/// any, and its markup converted to text.
pub struct LoadedEntry {
    pub title: Option<String>,
    pub text: String,
}

impl View for LoadedEntry {
    type V = (Option<Seq<char>>, Seq<char>);

    open spec fn view(&self) -> (Option<Seq<char>>, Seq<char>) {
        (opt_view(self.title), self.text@)
    }
}

pub open spec fn loaded_view(v: Seq<Option<LoadedEntry>>) -> Seq<Option<(Option<Seq<char>>, Seq<char>)>> {
    v.map_values(|o: Option<LoadedEntry>| match o {
        Some(e) => Some(e@),
        None => None,
    })
}

/// The id of the chapter at 1-based spine position `position`.
pub open spec fn chapter_id(position: nat) -> Seq<char> {
    "chapter-"@ + decimal(position)
}

/// The title given to a chapter whose markup names none.
pub open spec fn fallback_title(position: nat) -> Seq<char> {
    "Chapter "@ + decimal(position)
}

/// The chapter for spine position `position`, or `None` when its text is
/// empty once trimmed.
pub open spec fn chapter_from(position: nat, title: Option<Seq<char>>, text: Seq<char>) -> Option<ChapterView> {
    if trim(text).len() == 0 {
        None
    } else {
        Some(ChapterView {
            id: chapter_id(position),
            title: match title {
                Some(t) => t,
                None => fallback_title(position),
            },
            text: trim(text),
            word_count: word_count(trim(text)),
        })
    }
}

/// The chapter that the entry at 0-based spine index `i` yields.
pub open spec fn chapter_at(entries: Seq<Option<(Option<Seq<char>>, Seq<char>)>>, i: int) -> Option<ChapterView> {
    match entries[i] {
        Some((t, x)) => chapter_from((i + 1) as nat, t, x),
        None => None,
    }
}

/// The chapters that the first `n` spine entries yield, in spine order.
pub open spec fn chapters_upto(entries: Seq<Option<(Option<Seq<char>>, Seq<char>)>>, n: int) -> Seq<ChapterView>
    decreases n,
{
    if n <= 0 {
        Seq::empty()
    } else {
        match chapter_at(entries, n - 1) {
            Some(c) => chapters_upto(entries, n - 1).push(c),
            None => chapters_upto(entries, n - 1),
        }
    }
}

/// The 1-based spine positions, in order, of the first `n` entries that
/// yield a chapter.
pub open spec fn yielding_positions(entries: Seq<Option<(Option<Seq<char>>, Seq<char>)>>, n: int) -> Seq<nat>
    decreases n,
{
    if n <= 0 {
        Seq::empty()
    } else if chapter_at(entries, n - 1) is Some {
        yielding_positions(entries, n - 1).push(n as nat)
    } else {
        yielding_positions(entries, n - 1)
    }
}

/// Of `N` spine entries, the `M` that yield text give exactly `M` chapters,
/// in spine order, each with the id of its own 1-based spine position (the
/// skipped positions are not closed up), and each well formed.
pub proof fn lemma_chapters_follow_spine(entries: Seq<Option<(Option<Seq<char>>, Seq<char>)>>, n: int)
    requires
        0 <= n <= entries.len(),
    ensures
        ({
            let cs = chapters_upto(entries, n);
            let ps = yielding_positions(entries, n);
            &&& cs.len() == ps.len()
            &&& forall|k: int| 0 <= k < ps.len() ==> 1 <= #[trigger] ps[k] <= n
            &&& forall|j: int, k: int| 0 <= j < k < ps.len() ==> ps[j] < ps[k]
            &&& forall|k: int| 0 <= k < cs.len() ==> Some(#[trigger] cs[k]) == chapter_at(entries, ps[k] - 1)
            &&& forall|k: int| 0 <= k < cs.len() ==> (#[trigger] cs[k]).id == chapter_id(ps[k])
            &&& forall|k: int| 0 <= k < cs.len() ==> chapter_wf(#[trigger] cs[k])
        }),
    decreases n,
{
    if n > 0 {
        lemma_chapters_follow_spine(entries, n - 1);
    }
}

/// The chapter for 1-based spine position `position`, from the title found
/// in its markup and its text; `None` when the text is empty once trimmed.
pub fn build_chapter(position: usize, title: &Option<String>, text: &str) -> (r: Option<Chapter>)
    ensures
        match r {
            Some(c) => chapter_from(position as nat, opt_view(*title), text@) == Some(c@),
            None => chapter_from(position as nat, opt_view(*title), text@) is None,
        },
{
    let cs = chars_of(text);
    let trimmed = trim_chars(&cs);
    if trimmed.len() == 0 {
        return None;
    }
    let words = count_words(&trimmed);
    let mut id_chars = chars_of("chapter-");
    push_decimal(position, &mut id_chars);
    let chapter_title = match title {
        Some(t) => t.clone(),
        None => {
            let mut t = chars_of("Chapter ");
            push_decimal(position, &mut t);
            string_of(t.as_slice())
        },
    };
    Some(Chapter {
        id: string_of(id_chars.as_slice()),
        title: chapter_title,
        text: string_of(trimmed.as_slice()),
        word_count: words,
    })
}

/// The chapters that the loaded spine entries yield, in spine order; an
/// entry that could not be loaded is `None` and still takes its position.
pub fn collect_chapters(entries: &Vec<Option<LoadedEntry>>) -> (r: Vec<Chapter>)
    ensures
        chapters_view(r@) == chapters_upto(loaded_view(entries@), entries@.len() as int),
{
    let ghost ev = loaded_view(entries@);
    let mut out: Vec<Chapter> = Vec::new();
    let n = entries.len();
    let mut i: usize = 0;
    assert(chapters_view(out@) =~= Seq::<ChapterView>::empty());
    while i < n
        invariant
            n == ev.len(),
            n == entries@.len(),
            ev == loaded_view(entries@),
            i <= n,
            chapters_view(out@) == chapters_upto(ev, i as int),
        decreases n - i,
    {
        match &entries[i] {
            Some(entry) => {
                assert(ev[i as int] == Some(entry@));
                let c = build_chapter(i + 1, &entry.title, entry.text.as_str());
                match c {
                    Some(c) => {
                        let ghost cv = c@;
                        out.push(c);
                        assert(chapters_view(out@) =~= chapters_upto(ev, i as int).push(cv));
                    },
                    None => {},
                }
            },
            None => {},
        }
        i = i + 1;
    }
    out
}

} // verus!
