//! The completion popover: which completions a prompt opens, and choosing one of them.

use crate::numerals::{decimal, to_decimal};
use crate::slash_commands::{
    detect_trigger, entries, filter_entries, filtered, law_model_word_asks_for_models,
    matches_query, trigger_of, CommandEntry, CommandView, PopoverTrigger, TriggerView,
};
use crate::text::{
    first_index, has_space, is_space, join, joined, lemma_first_index, lemma_first_index_bounds,
    lowercase, same,
};
use vstd::arithmetic::div_mod::*;
use vstd::prelude::*;
use vstd::string::*;

verus! {

/// What a popover completes.
#[derive(Debug, Clone, Copy, PartialEq, Eq, Structural)]
pub enum PopoverKind {
    Slash,
    Model,
}

/// An open popover.
#[derive(Debug, PartialEq)]
pub struct PopoverState {
    pub kind: PopoverKind,
    pub query: String,
    pub items: Vec<CommandEntry>,
    pub selected: usize,
}

/// The mathematical content of a popover.
#[verifier::ext_equal]
pub struct PopoverView {
    pub kind: PopoverKind,
    pub query: Seq<char>,
    pub items: Seq<CommandView>,
    pub selected: int,
}

impl View for PopoverState {
    type V = PopoverView;

    open spec fn view(&self) -> PopoverView {
        PopoverView {
            kind: self.kind,
            query: self.query@,
            items: entries(self.items@),
            selected: self.selected as int,
        }
    }
}

impl PopoverView {
    /// Whether the popover has an entry and the selection is one of its entries.
    pub open spec fn is_valid(self) -> bool {
        0 <= self.selected < self.items.len()
    }

    /// The popover with the selection moved by `delta`, round the ends.
    pub open spec fn moved(self, delta: int) -> PopoverView {
        if self.items.len() == 0 {
            self
        } else {
            PopoverView { selected: (self.selected + delta) % (self.items.len() as int), ..self }
        }
    }

    /// The name of the selected entry.
    pub open spec fn selected_name(self) -> Option<Seq<char>> {
        if self.is_valid() {
            Some(self.items[self.selected].name)
        } else {
            None
        }
    }

    /// The popover with the first entry of the given name selected, if there is one.
    pub open spec fn reselected(self, name: Seq<char>) -> PopoverView {
        let at = first_index(names(self.items), name);
        if at < self.items.len() {
            PopoverView { selected: at, ..self }
        } else {
            self
        }
    }

    /// What the prompt becomes when the selection is inserted into it. A command leaves room for
    /// its argument, so `/model` goes on with the completion of a model.
    pub open spec fn completion(self) -> Option<Seq<char>> {
        match self.selected_name() {
            Some(name) => Some(
                match self.kind {
                    PopoverKind::Slash => name + " "@,
                    PopoverKind::Model => "/model "@ + name,
                },
            ),
            None => None,
        }
    }

    /// The first entry that is shown: the selection is never below the last row.
    pub open spec fn window_start(self) -> int {
        if self.selected >= MAX_VISIBLE - 1 {
            self.selected - (MAX_VISIBLE - 1)
        } else {
            0
        }
    }

    /// The end of the entries that are shown.
    pub open spec fn window_end(self) -> int {
        if self.window_start() + MAX_VISIBLE < self.items.len() {
            self.window_start() + MAX_VISIBLE
        } else {
            self.items.len() as int
        }
    }

    /// The rows that are shown.
    pub open spec fn rows(self) -> Seq<RowView> {
        Seq::new(
            (self.window_end() - self.window_start()) as nat,
            |i: int|
                RowView {
                    name: self.items[self.window_start() + i].name,
                    desc: described(self.items[self.window_start() + i]),
                    is_selected: self.window_start() + i == self.selected,
                },
        )
    }

    /// The header: what is completed, and the position of the selection.
    pub open spec fn header(self) -> Seq<char> {
        let label = match self.kind {
            PopoverKind::Slash => "Slash commands"@,
            PopoverKind::Model => "Models"@,
        };
        let count = if self.items.len() == 0 {
            1
        } else {
            self.items.len()
        };
        label + "  ("@ + decimal((self.selected + 1) as nat) + "/"@ + decimal(count) + ")"@
    }
}

/// The names of entries.
pub open spec fn names(items: Seq<CommandView>) -> Seq<Seq<char>> {
    items.map_values(|e: CommandView| e.name)
}

/// How many rows a popover shows at most.
pub const MAX_VISIBLE: usize = 8;

/// A row of a popover.
#[derive(Debug, PartialEq)]
pub struct PopoverRow {
    pub name: String,
    pub desc: String,
    pub is_selected: bool,
}

/// The mathematical content of a row.
#[verifier::ext_equal]
pub struct RowView {
    pub name: Seq<char>,
    pub desc: Seq<char>,
    pub is_selected: bool,
}

impl View for PopoverRow {
    type V = RowView;

    open spec fn view(&self) -> RowView {
        RowView { name: self.name@, desc: self.desc@, is_selected: self.is_selected }
    }
}

/// The contents of a list of rows.
pub open spec fn row_views(list: Seq<PopoverRow>) -> Seq<RowView> {
    list.map_values(|r: PopoverRow| r@)
}

/// The description that a row shows, with the aliases if there are any.
pub open spec fn described(e: CommandView) -> Seq<char> {
    if e.aliases.len() == 0 {
        e.desc
    } else {
        e.desc + "  ("@ + joined(e.aliases, ", "@) + ")"@
    }
}

/// The popover that a trigger opens, if any entry matches it.
pub open spec fn opened(
    trigger: TriggerView,
    commands: Seq<CommandView>,
    models: Seq<CommandView>,
) -> Option<PopoverView> {
    let (kind, query, items) = match trigger {
        TriggerView::Slash { query } => (PopoverKind::Slash, query, filtered(commands, query)),
        TriggerView::Model { query } => (PopoverKind::Model, query, filtered(models, query)),
    };
    if items.len() == 0 {
        None
    } else {
        Some(PopoverView { kind, query, items, selected: 0 })
    }
}

/// The popover for the prompt `text`. The entry that was selected in the popover before stays
/// selected where it is still there.
pub open spec fn popover_for(
    text: Seq<char>,
    before: Option<PopoverView>,
    commands: Seq<CommandView>,
    models: Seq<CommandView>,
) -> Option<PopoverView> {
    let fresh = match trigger_of(text) {
        Some(trigger) => opened(trigger, commands, models),
        None => None,
    };
    let name = match before {
        Some(p) => p.selected_name(),
        None => None,
    };
    match (fresh, name) {
        (Some(p), Some(n)) => Some(p.reselected(n)),
        _ => fresh,
    }
}

/// The content of an optional popover.
pub open spec fn popover_view(popover: Option<PopoverState>) -> Option<PopoverView> {
    match popover {
        Some(p) => Some(p@),
        None => None,
    }
}

impl PopoverState {
    /// The popover that a trigger opens, with its first entry selected. None where no entry
    /// matches.
    pub fn from_trigger(
        trigger: PopoverTrigger,
        commands: &[CommandEntry],
        models: &[CommandEntry],
    ) -> (r: Option<Self>)
        ensures
            popover_view(r) == opened(trigger@, entries(commands@), entries(models@)),
            r matches Some(p) ==> p@.is_valid() && (p.items.len() <= commands@.len()
                || p.items.len() <= models@.len()),
    {
        let (kind, query, items) = match trigger {
            PopoverTrigger::Slash { query } => {
                let items = filter_entries(commands, query.as_str());
                (PopoverKind::Slash, query, items)
            },
            PopoverTrigger::Model { query } => {
                let items = filter_entries(models, query.as_str());
                (PopoverKind::Model, query, items)
            },
        };
        assert(entries(items@).len() == items@.len());
        if items.len() == 0 {
            None
        } else {
            Some(PopoverState { kind, query, items, selected: 0 })
        }
    }

    /// Moves the selection by `delta`, round the ends.
    pub fn move_selection(&mut self, delta: i32)
        requires
            old(self).items@.len() > 0 ==> {
                &&& old(self).items@.len() <= i32::MAX
                &&& old(self).selected <= i32::MAX
                &&& i32::MIN <= old(self).selected + delta <= i32::MAX
            },
        ensures
            final(self)@ == old(self)@.moved(delta as int),
            final(self).items == old(self).items,
    {
        if self.items.len() == 0 {
            return;
        }
        let len: i32 = self.items.len() as i32;
        let cur: i32 = self.selected as i32;
        let sum: i32 = cur + delta;
        match sum.checked_rem_euclid(len) {
            Some(next) => {
                self.selected = next as usize;
            },
            None => {},
        }
    }

    fn position(&self, name: &str) -> (r: usize)
        ensures
            r == first_index(names(self@.items), name@),
    {
        let ghost all = names(self@.items);
        let mut i: usize = 0;
        while i < self.items.len() && !same(self.items[i].name.as_str(), name)
            invariant
                i <= self.items.len(),
                all == names(self@.items),
                forall|j: int| 0 <= j < i ==> #[trigger] all[j] != name@,
            decreases self.items.len() - i,
        {
            assert(all[i as int] == self.items@[i as int].name@);
            i = i + 1;
        }
        proof {
            if i < all.len() {
                assert(all[i as int] == self.items@[i as int].name@);
            }
            lemma_first_index(all, name@, i as int);
        }
        i
    }

    /// What the prompt becomes when the selection is inserted into it.
    pub fn completed_text(&self) -> (r: Option<String>)
        ensures
            match r {
                Some(text) => self@.completion() == Some(text@),
                None => self@.completion() is None,
            },
    {
        if self.selected >= self.items.len() {
            return None;
        }
        let name = self.items[self.selected].name.as_str();
        assert(self@.items[self.selected as int].name == name@);
        match self.kind {
            PopoverKind::Slash => Some(name.to_owned().concat(" ")),
            PopoverKind::Model => Some("/model ".to_owned().concat(name)),
        }
    }

    fn name_of_selected(&self) -> (r: Option<String>)
        ensures
            match r {
                Some(name) => self@.selected_name() == Some(name@),
                None => self@.selected_name() is None,
            },
    {
        if self.selected >= self.items.len() {
            None
        } else {
            assert(self@.items[self.selected as int].name == self.items@[self.selected as int].name@);
            Some(self.items[self.selected].name.clone())
        }
    }

    /// The rows that the popover shows.
    pub fn visible_rows(&self) -> (r: Vec<PopoverRow>)
        requires
            self@.window_start() <= self@.items.len(),
        ensures
            row_views(r@) == self@.rows(),
    {
        let len: usize = self.items.len();
        let start: usize = self.selected.saturating_sub(MAX_VISIBLE - 1);
        let end: usize = if len - start <= MAX_VISIBLE {
            len
        } else {
            start + MAX_VISIBLE
        };
        assert(start == self@.window_start());
        assert(end == self@.window_end());
        let mut out: Vec<PopoverRow> = Vec::new();
        let mut i: usize = start;
        while i < end
            invariant
                start <= i <= end <= self.items.len(),
                start == self@.window_start(),
                end == self@.window_end(),
                out@.len() == i - start,
                forall|j: int| 0 <= j < i - start ==> (#[trigger] out@[j])@ == self@.rows()[j],
            decreases end - i,
        {
            let entry = &self.items[i];
            assert(self@.items[i as int] == entry@);
            let desc = if entry.aliases.len() == 0 {
                entry.desc.clone()
            } else {
                entry.desc.clone().concat("  (").concat(join(&entry.aliases, ", ").as_str()).concat(
                    ")",
                )
            };
            assert(desc@ == described(entry@));
            let row = PopoverRow {
                name: entry.name.clone(),
                desc,
                is_selected: i == self.selected,
            };
            assert(row@ == self@.rows()[i - start]);
            out.push(row);
            i = i + 1;
        }
        assert(row_views(out@) =~= self@.rows());
        out
    }

    /// The header of the popover.
    pub fn header_text(&self) -> (r: String)
        requires
            self.selected < usize::MAX,
        ensures
            r@ == self@.header(),
    {
        let label = match self.kind {
            PopoverKind::Slash => "Slash commands",
            PopoverKind::Model => "Models",
        };
        let place: usize = self.selected + 1;
        let position = to_decimal(place as u64);
        let count = to_decimal(
            if self.items.len() == 0 {
                1
            } else {
                self.items.len() as u64
            },
        );
        label.to_owned().concat("  (").concat(position.as_str()).concat("/").concat(
            count.as_str(),
        ).concat(")")
    }
}

/// The popover for the prompt `text`: opened, kept up to date or closed. The entry that is selected
/// in `before` stays selected where it is still there.
pub fn recomputed_popover(
    text: &str,
    before: &Option<PopoverState>,
    commands: &Vec<CommandEntry>,
    models: &Vec<CommandEntry>,
) -> (r: Option<PopoverState>)
    ensures
        popover_view(r) == popover_for(
            text@,
            popover_view(*before),
            entries(commands@),
            entries(models@),
        ),
        r matches Some(p) ==> p@.is_valid() && (p.items.len() <= commands@.len() || p.items.len()
            <= models@.len()),
{
    let name = match before {
        Some(p) => p.name_of_selected(),
        None => None,
    };
    let fresh = match detect_trigger(text) {
        Some(trigger) => PopoverState::from_trigger(
            trigger,
            commands.as_slice(),
            models.as_slice(),
        ),
        None => None,
    };
    match fresh {
        Some(p) => {
            let mut p = p;
            match name {
                Some(n) => {
                    proof {
                        lemma_first_index_bounds(names(p@.items), n@);
                    }
                    let at: usize = p.position(n.as_str());
                    if at < p.items.len() {
                        p.selected = at;
                    }
                },
                None => {},
            }
            Some(p)
        },
        None => None,
    }
}

/// Moving the selection keeps it on an entry, and moving it back undoes the move.
pub proof fn law_moving_back_undoes(p: PopoverView, delta: int)
    requires
        p.is_valid(),
    ensures
        p.moved(delta).is_valid(),
        p.moved(delta).moved(-delta) == p,
{
    let n = p.items.len() as int;
    let sum = p.selected + delta;
    let next = sum % n;
    let q = sum / n;
    lemma_mod_bound(sum, n);
    lemma_fundamental_div_mod(sum, n);
    lemma_mod_multiples_vanish(-q, p.selected, n);
    lemma_small_mod(p.selected as nat, n as nat);
    assert(n * -q == -(n * q)) by (nonlinear_arith);
    assert((next - delta) % n == p.selected);
}

/// Moving the selection as often as there are entries leads back to where it was.
pub proof fn law_moving_goes_round(p: PopoverView)
    requires
        p.is_valid(),
    ensures
        p.moved(p.items.len() as int) == p,
{
    let n = p.items.len() as int;
    lemma_mod_add_multiples_vanish(p.selected, n);
    lemma_small_mod(p.selected as nat, n as nat);
}

/// The rows that are shown are at most eight; exactly one of them, that of the selection, is
/// selected; and all entries are shown where there are no more than eight.
pub proof fn law_window_shows_selection(p: PopoverView)
    requires
        p.is_valid(),
    ensures
        0 < p.rows().len() <= MAX_VISIBLE,
        0 <= p.selected - p.window_start() < p.rows().len(),
        forall|i: int|
            0 <= i < p.rows().len() ==> ((#[trigger] p.rows()[i]).is_selected <==> i == p.selected
                - p.window_start()),
        p.items.len() <= MAX_VISIBLE ==> p.rows().len() == p.items.len(),
{
}

/// A popover that opens always has a selection, and lists no more than there is.
pub proof fn law_open_popover_has_selection(
    text: Seq<char>,
    before: Option<PopoverView>,
    commands: Seq<CommandView>,
    models: Seq<CommandView>,
)
    ensures
        popover_for(text, before, commands, models) matches Some(p) ==> p.is_valid() && (
        p.items.len() <= commands.len() || p.items.len() <= models.len()),
{
    if let Some(trigger) = trigger_of(text) {
        let query = match trigger {
            TriggerView::Slash { query } => query,
            TriggerView::Model { query } => query,
        };
        let p = |e: CommandView| matches_query(e, lowercase(query));
        commands.lemma_filter_len(p);
        models.lemma_filter_len(p);
        if let Some(fresh) = opened(trigger, commands, models) {
            if let Some(b) = before {
                if let Some(name) = b.selected_name() {
                    lemma_first_index_bounds(names(fresh.items), name);
                }
            }
        }
    }
}

/// An entry that is selected stays selected while the prompt is edited, as long as it is listed.
pub proof fn law_selection_survives(
    text: Seq<char>,
    before: PopoverView,
    commands: Seq<CommandView>,
    models: Seq<CommandView>,
)
    ensures
        popover_for(text, Some(before), commands, models) matches Some(p) ==> (
        before.selected_name() matches Some(name) ==> names(p.items).contains(name)
            ==> p.selected_name() == Some(name)),
{
    if let Some(p) = popover_for(text, Some(before), commands, models) {
        if let Some(name) = before.selected_name() {
            let all = names(p.items);
            lemma_first_index_bounds(all, name);
            if all.contains(name) {
                let i = choose|i: int| 0 <= i < all.len() && all[i] == name;
                assert(first_index(all, name) <= i);
            }
        }
    }
}

/// Completing `/model` goes on with the completion of a model: every model is listed.
pub proof fn law_model_command_lists_models(
    p: PopoverView,
    commands: Seq<CommandView>,
    models: Seq<CommandView>,
)
    requires
        p.kind == PopoverKind::Slash,
        p.selected_name() == Some("/model"@),
        models.len() > 0,
    ensures
        p.completion() == Some("/model "@),
        popover_for("/model "@, Some(p), commands, models) matches Some(next) ==> next.kind
            == PopoverKind::Model && next.items == models && next.query.len() == 0,
        popover_for("/model "@, Some(p), commands, models) is Some,
{
    reveal_strlit("/model");
    reveal_strlit("/model ");
    reveal_strlit(" ");
    assert("/model"@ + " "@ =~= "/model "@);
    let none: Seq<char> = seq![];
    assert("/model "@ + none =~= "/model "@);
    law_model_word_asks_for_models(none);
}

/// Completing any other slash command closes the popover.
pub proof fn law_other_command_closes(
    p: PopoverView,
    commands: Seq<CommandView>,
    models: Seq<CommandView>,
)
    requires
        p.kind == PopoverKind::Slash,
        p.selected_name() matches Some(name) && name != "/model"@,
    ensures
        p.completion() matches Some(text) ==> popover_for(text, Some(p), commands, models) is None,
{
    let name = p.selected_name()->0;
    let text = name + " "@;
    reveal_strlit("/model");
    reveal_strlit("/model ");
    reveal_strlit(" ");
    assert(is_space(text.last()));
    assert(has_space(text)) by {
        assert(is_space(text[text.len() - 1]));
    }
    if "/model "@.is_prefix_of(text) {
        let rest = text.skip(7);
        if rest.len() == 0 {
            assert(name =~= text.take(6));
            assert forall|i: int| 0 <= i < 6 implies #[trigger] name[i] == "/model"@[i] by {
                assert(text[i] == "/model "@[i]);
            }
            assert(name =~= "/model"@);
        } else {
            assert(is_space(rest[rest.len() - 1]));
        }
    }
}

} // verus!
