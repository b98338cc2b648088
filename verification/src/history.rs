//! Stepping through earlier prompts under a live filter.
//!
//! The navigator keeps a lower-cased filter and a cursor into a history that
//! its caller owns. `up` and `down` move the cursor to the nearest entry, in
//! their direction, whose prompt holds the filter's characters in order and
//! which does not repeat the entry that the cursor stands on.

use crate::matching::{is_subsequence, same_text, subsequence_match, texts_match};
use crate::text::{lowercase, to_lowercase};
use vstd::prelude::*;

verus! {

/// One exchange of a conversation: a submitted prompt and the reply that has
/// arrived for it so far.
#[derive(Debug)]
pub struct Prompt {
    pub prompt: String,
    pub reply: String,
}

impl Prompt {
    /// An entry for a prompt that has just been submitted: no reply yet.
    pub fn new(prompt: &str) -> (entry: Prompt)
        ensures
            entry.prompt@ == prompt@,
            entry.reply@ == Seq::<char>::empty(),
    {
        Prompt { prompt: prompt.to_owned(), reply: String::new() }
    }
}

/// An exchange as a plain value.
pub struct PromptView {
    pub prompt: Seq<char>,
    pub reply: Seq<char>,
}

impl View for Prompt {
    type V = PromptView;

    open spec fn view(&self) -> PromptView {
        PromptView { prompt: self.prompt@, reply: self.reply@ }
    }
}

/// The prompts of a history, oldest first, as plain texts.
pub open spec fn prompt_texts(history: Seq<Prompt>) -> Seq<Seq<char>> {
    history.map_values(|entry: Prompt| entry.prompt@)
}

/// What a navigator is: its filter and its cursor.
///
/// A cursor at or beyond the end of the history it is used with stands on no
/// entry. `usize::MAX` is the cursor of a navigator that is not browsing.
pub struct Navigation {
    pub filter: Seq<char>,
    pub cursor: int,
}

impl Navigation {
    /// The state after a reset: the given filter, and not browsing.
    pub open spec fn fresh(filter: Seq<char>) -> Navigation {
        Navigation { filter, cursor: usize::MAX as int }
    }

    /// The cursor stands on an entry of `prompts`, and `text` is the same
    /// text as that entry.
    pub open spec fn repeats_current(self, prompts: Seq<Seq<char>>, text: Seq<char>) -> bool {
        0 <= self.cursor < prompts.len() && same_text(text, prompts[self.cursor])
    }

    /// `text` may be surfaced: the filter is a subsequence of it, and it does
    /// not repeat the entry that the cursor stands on.
    pub open spec fn accepts(self, prompts: Seq<Seq<char>>, text: Seq<char>) -> bool {
        !self.repeats_current(prompts, text) && is_subsequence(self.filter, text)
    }

    /// Where `up` starts: it looks at the entries strictly below this index.
    /// A cursor beyond the end counts as one past the last entry.
    pub open spec fn up_bound(self, prompts: Seq<Seq<char>>) -> int {
        if self.cursor < prompts.len() {
            self.cursor
        } else {
            prompts.len() as int
        }
    }

    /// Where `down` starts: it looks at the entries strictly above this
    /// index. A cursor at or beyond the end counts as the last entry.
    pub open spec fn down_bound(self, prompts: Seq<Seq<char>>) -> int {
        if self.cursor < prompts.len() - 1 {
            self.cursor
        } else {
            prompts.len() - 1
        }
    }

    /// `k` is the entry that `up` moves to: the nearest acceptable entry
    /// below the starting point.
    pub open spec fn is_up_target(self, prompts: Seq<Seq<char>>, k: int) -> bool {
        &&& 0 <= k < self.up_bound(prompts)
        &&& self.accepts(prompts, prompts[k])
        &&& forall|j: int|
            k < j < self.up_bound(prompts) ==> !self.accepts(prompts, #[trigger] prompts[j])
    }

    /// `k` is the entry that `down` moves to: the nearest acceptable entry
    /// above the starting point.
    pub open spec fn is_down_target(self, prompts: Seq<Seq<char>>, k: int) -> bool {
        &&& 0 <= self.down_bound(prompts) < k < prompts.len()
        &&& self.accepts(prompts, prompts[k])
        &&& forall|j: int|
            self.down_bound(prompts) < j < k ==> !self.accepts(prompts, #[trigger] prompts[j])
    }

    /// The entry that `up` moves to, if there is one.
    pub open spec fn up_target(self, prompts: Seq<Seq<char>>) -> Option<int> {
        if exists|k: int| self.is_up_target(prompts, k) {
            Some(choose|k: int| self.is_up_target(prompts, k))
        } else {
            None
        }
    }

    /// The entry that `down` moves to, if there is one.
    pub open spec fn down_target(self, prompts: Seq<Seq<char>>) -> Option<int> {
        if exists|k: int| self.is_down_target(prompts, k) {
            Some(choose|k: int| self.is_down_target(prompts, k))
        } else {
            None
        }
    }

    /// The navigator after a step: on the target where there is one,
    /// unchanged where there is none.
    pub open spec fn moved_to(self, target: Option<int>) -> Navigation {
        match target {
            Some(k) => Navigation { cursor: k, ..self },
            None => self,
        }
    }

    /// The navigator after `up` on `prompts`.
    pub open spec fn up(self, prompts: Seq<Seq<char>>) -> Navigation {
        self.moved_to(self.up_target(prompts))
    }

    /// The navigator after `down` on `prompts`.
    pub open spec fn down(self, prompts: Seq<Seq<char>>) -> Navigation {
        self.moved_to(self.down_target(prompts))
    }

    /// The navigator after a reset to `pattern`. The earlier state plays no
    /// part in it.
    pub open spec fn reset(self, pattern: Seq<char>) -> Navigation {
        Navigation::fresh(lowercase(pattern))
    }
}

/// The prompt that a step surfaces: that of its target.
pub open spec fn surfaced(prompts: Seq<Seq<char>>, target: Option<int>) -> Option<Seq<char>> {
    match target {
        Some(k) => Some(prompts[k]),
        None => None,
    }
}

/// `found` is what a step returns for `target`: the prompt of the target, or
/// `None` where there is no target.
pub open spec fn returns_surfaced(
    found: Option<String>,
    prompts: Seq<Seq<char>>,
    target: Option<int>,
) -> bool {
    match found {
        Some(text) => surfaced(prompts, target) == Some(text@),
        None => target is None,
    }
}

/// No two entries are the target of `up`.
pub proof fn lemma_up_target_is_unique(nav: Navigation, prompts: Seq<Seq<char>>, k: int, l: int)
    requires
        nav.is_up_target(prompts, k),
        nav.is_up_target(prompts, l),
    ensures
        k == l,
{
}

/// No two entries are the target of `down`.
pub proof fn lemma_down_target_is_unique(nav: Navigation, prompts: Seq<Seq<char>>, k: int, l: int)
    requires
        nav.is_down_target(prompts, k),
        nav.is_down_target(prompts, l),
    ensures
        k == l,
{
}

proof fn lemma_nearest_below(nav: Navigation, prompts: Seq<Seq<char>>, from: int) -> (k: int)
    requires
        0 <= from < nav.up_bound(prompts),
        nav.accepts(prompts, prompts[from]),
    ensures
        nav.is_up_target(prompts, k),
    decreases nav.up_bound(prompts) - from,
{
    if exists|j: int| from < j < nav.up_bound(prompts) && nav.accepts(prompts, #[trigger] prompts[j]) {
        let j = choose|j: int|
            from < j < nav.up_bound(prompts) && nav.accepts(prompts, #[trigger] prompts[j]);
        lemma_nearest_below(nav, prompts, j)
    } else {
        from
    }
}

proof fn lemma_nearest_above(nav: Navigation, prompts: Seq<Seq<char>>, from: int) -> (k: int)
    requires
        0 <= nav.down_bound(prompts) < from < prompts.len(),
        nav.accepts(prompts, prompts[from]),
    ensures
        nav.is_down_target(prompts, k),
    decreases from,
{
    if exists|j: int| nav.down_bound(prompts) < j < from && nav.accepts(prompts, #[trigger] prompts[j]) {
        let j = choose|j: int|
            nav.down_bound(prompts) < j < from && nav.accepts(prompts, #[trigger] prompts[j]);
        lemma_nearest_above(nav, prompts, j)
    } else {
        from
    }
}

/// `up` moves to the nearest acceptable entry below its starting point, and
/// finds nothing only where no entry below it is acceptable.
pub proof fn lemma_up_finds_nearest(nav: Navigation, prompts: Seq<Seq<char>>)
    ensures
        match nav.up_target(prompts) {
            Some(k) => nav.is_up_target(prompts, k),
            None => forall|k: int|
                0 <= k < nav.up_bound(prompts) ==> !nav.accepts(prompts, #[trigger] prompts[k]),
        },
{
    if nav.up_target(prompts) is None {
        assert forall|k: int| 0 <= k < nav.up_bound(prompts) implies !nav.accepts(
            prompts,
            #[trigger] prompts[k],
        ) by {
            if nav.accepts(prompts, prompts[k]) {
                lemma_nearest_below(nav, prompts, k);
            }
        }
    }
}

/// `down` moves to the nearest acceptable entry above its starting point,
/// and finds nothing only where no entry above it is acceptable.
pub proof fn lemma_down_finds_nearest(nav: Navigation, prompts: Seq<Seq<char>>)
    ensures
        match nav.down_target(prompts) {
            Some(k) => nav.is_down_target(prompts, k),
            None => forall|k: int|
                0 <= nav.down_bound(prompts) < k < prompts.len() ==> !nav.accepts(
                    prompts,
                    #[trigger] prompts[k],
                ),
        },
{
    if nav.down_target(prompts) is None {
        assert forall|k: int| 0 <= nav.down_bound(prompts) < k < prompts.len() implies !nav.accepts(
            prompts,
            #[trigger] prompts[k],
        ) by {
            if nav.accepts(prompts, prompts[k]) {
                lemma_nearest_above(nav, prompts, k);
            }
        }
    }
}

/// A step never surfaces the text that the cursor stands on: from an entry
/// that is followed by copies of itself, it moves past the copies.
pub proof fn lemma_step_leaves_current_text(nav: Navigation, prompts: Seq<Seq<char>>, k: int)
    requires
        0 <= nav.cursor < prompts.len(),
        nav.up_target(prompts) == Some(k) || nav.down_target(prompts) == Some(k),
    ensures
        !same_text(prompts[k], prompts[nav.cursor]),
        k != nav.cursor,
{
    lemma_up_finds_nearest(nav, prompts);
    lemma_down_finds_nearest(nav, prompts);
}

/// After a reset nothing of the earlier state is left: two navigators that
/// were reset to the same pattern are the same navigator, so `up` gives the
/// same on both, and so does `down`.
pub proof fn lemma_reset_forgets(
    one: Navigation,
    other: Navigation,
    pattern: Seq<char>,
    prompts: Seq<Seq<char>>,
)
    ensures
        one.reset(pattern) == other.reset(pattern),
        one.reset(pattern).up(prompts) == other.reset(pattern).up(prompts),
        one.reset(pattern).down(prompts) == other.reset(pattern).down(prompts),
{
}

/// A navigator that is not browsing starts at the end of the history: `up`
/// looks at every entry, no entry is ruled out as a repeat, and `down` finds
/// nothing.
pub proof fn lemma_fresh_navigator_starts_at_end(filter: Seq<char>, prompts: Seq<Seq<char>>)
    requires
        prompts.len() <= usize::MAX,
    ensures
        ({
            let nav = Navigation::fresh(filter);
            &&& nav.up_bound(prompts) == prompts.len()
            &&& nav.down_bound(prompts) == prompts.len() - 1
            &&& forall|text: Seq<char>|
                #[trigger] nav.accepts(prompts, text) == is_subsequence(filter, text)
            &&& nav.down_target(prompts) is None
            &&& nav.down(prompts) == nav
            &&& match nav.up_target(prompts) {
                Some(k) => {
                    &&& 0 <= k < prompts.len()
                    &&& is_subsequence(filter, prompts[k])
                    &&& forall|j: int|
                        k < j < prompts.len() ==> !is_subsequence(filter, #[trigger] prompts[j])
                },
                None => forall|j: int|
                    0 <= j < prompts.len() ==> !is_subsequence(filter, #[trigger] prompts[j]),
            }
        }),
{
    lemma_up_finds_nearest(Navigation::fresh(filter), prompts);
}

/// Steps backward and forward through the entries of a history that match a
/// filter.
#[derive(Debug)]
pub struct HistoryNavigator {
    pattern: String,
    cursor: usize,
}

impl View for HistoryNavigator {
    type V = Navigation;

    closed spec fn view(&self) -> Navigation {
        Navigation { filter: self.pattern@, cursor: self.cursor as int }
    }
}

impl HistoryNavigator {
    /// A navigator with an empty filter, which every prompt matches, that is
    /// not browsing.
    pub fn new() -> (nav: HistoryNavigator)
        ensures
            nav@ == Navigation::fresh(Seq::empty()),
    {
        HistoryNavigator { pattern: String::new(), cursor: usize::MAX }
    }

    /// Takes the lowercase form of `pattern` as the new filter and stops
    /// browsing. Nothing of the earlier state is kept.
    pub fn reset(&mut self, pattern: &str)
        ensures
            final(self)@ == old(self)@.reset(pattern@),
    {
        self.set_filter(to_lowercase(pattern));
    }

    /// Takes `filter` as it is as the new filter and stops browsing.
    pub fn set_filter(&mut self, filter: String)
        ensures
            final(self)@ == Navigation::fresh(filter@),
    {
        self.pattern = filter;
        self.cursor = usize::MAX;
    }

    /// Whether `text` may be surfaced next, given the entry that the cursor
    /// stands on in `history`.
    pub fn is_match(&self, history: &[Prompt], text: &str) -> (accepted: bool)
        ensures
            accepted == self@.accepts(prompt_texts(history@), text@),
    {
        if self.cursor < history.len() && texts_match(text, history[self.cursor].prompt.as_str()) {
            return false;
        }
        subsequence_match(self.pattern.as_str(), text)
    }

    /// Moves to the nearest acceptable entry before the cursor and returns its
    /// prompt. Where there is none, among them where the history is empty,
    /// returns `None` and leaves the navigator as it was.
    pub fn up(&mut self, history: &[Prompt]) -> (found: Option<String>)
        ensures
            final(self)@ == old(self)@.up(prompt_texts(history@)),
            returns_surfaced(
                found,
                prompt_texts(history@),
                old(self)@.up_target(prompt_texts(history@)),
            ),
            found is Some ==> old(self)@.is_up_target(
                prompt_texts(history@),
                final(self)@.cursor,
            ),
            found is None ==> final(self)@ == old(self)@ && forall|k: int|
                0 <= k < old(self)@.up_bound(prompt_texts(history@)) ==> !old(self)@.accepts(
                    prompt_texts(history@),
                    #[trigger] prompt_texts(history@)[k],
                ),
    {
        let ghost prompts = prompt_texts(history@);
        let mut cursor: usize = if self.cursor < history.len() {
            self.cursor
        } else {
            history.len()
        };
        while cursor > 0
            invariant
                *self == *old(self),
                prompts == prompt_texts(history@),
                cursor <= self@.up_bound(prompts),
                forall|j: int|
                    cursor <= j < self@.up_bound(prompts) ==> !self@.accepts(
                        prompts,
                        #[trigger] prompts[j],
                    ),
            decreases cursor,
        {
            cursor = cursor - 1;
            let entry = &history[cursor];
            if self.is_match(history, entry.prompt.as_str()) {
                proof {
                    let target = old(self)@.up_target(prompts)->0;
                    assert(old(self)@.is_up_target(prompts, cursor as int));
                    lemma_up_target_is_unique(old(self)@, prompts, cursor as int, target);
                }
                self.cursor = cursor;
                return Some(entry.prompt.clone());
            }
        }
        None
    }

    /// Moves to the nearest acceptable entry after the cursor and returns its
    /// prompt. Where there is none, among them where the navigator is not
    /// browsing or the history is empty, returns `None` and leaves the
    /// navigator as it was.
    pub fn down(&mut self, history: &[Prompt]) -> (found: Option<String>)
        ensures
            final(self)@ == old(self)@.down(prompt_texts(history@)),
            returns_surfaced(
                found,
                prompt_texts(history@),
                old(self)@.down_target(prompt_texts(history@)),
            ),
            found is Some ==> old(self)@.is_down_target(
                prompt_texts(history@),
                final(self)@.cursor,
            ),
            found is None ==> final(self)@ == old(self)@ && forall|k: int|
                0 <= old(self)@.down_bound(prompt_texts(history@)) < k < history@.len() ==> !old(
                    self,
                )@.accepts(prompt_texts(history@), #[trigger] prompt_texts(history@)[k]),
    {
        if history.len() == 0 {
            return None;
        }
        let ghost prompts = prompt_texts(history@);
        let mut cursor: usize = if self.cursor < history.len() - 1 {
            self.cursor
        } else {
            history.len() - 1
        };
        while cursor < history.len() - 1
            invariant
                *self == *old(self),
                prompts == prompt_texts(history@),
                history@.len() > 0,
                self@.down_bound(prompts) <= cursor < history@.len(),
                forall|j: int|
                    self@.down_bound(prompts) < j <= cursor ==> !self@.accepts(
                        prompts,
                        #[trigger] prompts[j],
                    ),
            decreases history@.len() - cursor,
        {
            cursor = cursor + 1;
            let entry = &history[cursor];
            if self.is_match(history, entry.prompt.as_str()) {
                proof {
                    let target = old(self)@.down_target(prompts)->0;
                    assert(old(self)@.is_down_target(prompts, cursor as int));
                    lemma_down_target_is_unique(old(self)@, prompts, cursor as int, target);
                }
                self.cursor = cursor;
                return Some(entry.prompt.clone());
            }
        }
        None
    }
}

} // verus!
