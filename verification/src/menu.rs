//! Nested menu: a static tree of lists plus a stack of where you are in it.
//! Every list gets an implicit "Back" at the top, and the cursor starts there,
//! so no stray click changes a setting: it backs out, or opens a list that the
//! cursor was left on.

use vstd::prelude::*;

verus! {

#[derive(Debug, Clone, Copy, PartialEq, Eq, Structural)]
pub enum Setting {
    Lock,
    Repeater,
}

pub enum Item {
    Submenu(&'static str, &'static [Item]),
    Choice(&'static str, Setting, bool),
}

pub const BACK: &'static str = "Back";

/// What a click did.
#[derive(Debug, Clone, Copy, PartialEq, Eq, Structural)]
pub enum Outcome {
    Stay,
    Exit,
    SetTo(Setting, bool),
}

#[derive(Clone, Copy)]
struct Level {
    title: &'static str,
    items: &'static [Item],
    cursor: usize,  // 0 = Back, 1.. = items
}

/// One list on the way from the top of the menu to where you are.
pub ghost struct LevelView {
    pub title: Seq<char>,
    pub items: Seq<Item>,
    pub cursor: nat,
}

impl LevelView {
    /// The item under the cursor, unless that is "Back".
    pub open spec fn selected(self) -> Option<Item> {
        if self.cursor == 0 {
            None
        } else {
            Some(self.items[self.cursor - 1])
        }
    }
}

/// The two choices of a setting.
pub open spec fn is_switch(items: Seq<Item>, setting: Setting) -> bool {
    &&& items.len() == 2
    &&& items[0] matches Item::Choice(label, s, value) && label@ == "true"@ && s == setting && value
    &&& items[1] matches Item::Choice(label, s, value) && label@ == "false"@ && s == setting
        && !value
}

/// The top list: one list of choices for each setting.
pub open spec fn is_root(items: Seq<Item>) -> bool {
    &&& items.len() == 2
    &&& items[0] matches Item::Submenu(label, sub) && label@ == "Lock"@ && is_switch(
        sub@,
        Setting::Lock,
    )
    &&& items[1] matches Item::Submenu(label, sub) && label@ == "Repeater"@ && is_switch(
        sub@,
        Setting::Repeater,
    )
}

/// Where the cursor ends up when it is moved by `delta` in a list of `last` items.
pub open spec fn moved(cursor: nat, delta: int, last: nat) -> nat {
    if cursor + delta < 0 {
        0
    } else if cursor + delta > last {
        last
    } else {
        (cursor + delta) as nat
    }
}

/// The stack after the cursor of its top list has moved by `delta`.
pub open spec fn rotated(stack: Seq<LevelView>, delta: int) -> Seq<LevelView> {
    let top = stack.last();
    stack.drop_last().push(
        LevelView { cursor: moved(top.cursor, delta, top.items.len()), ..top },
    )
}

/// What a click does: to the stack, and for the caller.
pub open spec fn clicked(stack: Seq<LevelView>) -> (Seq<LevelView>, Outcome) {
    match stack.last().selected() {
        None => (
            stack.drop_last(),
            if stack.len() == 1 {
                Outcome::Exit
            } else {
                Outcome::Stay
            },
        ),
        Some(Item::Submenu(title, items)) => (
            stack.push(LevelView { title: title@, items: items@, cursor: 0 }),
            Outcome::Stay,
        ),
        Some(Item::Choice(_, setting, value)) => (
            if stack.len() > 1 {
                stack.drop_last()
            } else {
                stack
            },
            Outcome::SetTo(setting, value),
        ),
    }
}

/// The label of a row.
pub open spec fn label_of(item: Item) -> Seq<char> {
    match item {
        Item::Submenu(label, _) => label@,
        Item::Choice(label, _, _) => label@,
    }
}

/// The menu as it opens: the top list, with the cursor on "Back".
pub open spec fn opened(stack: Seq<LevelView>) -> bool {
    &&& stack.len() == 1
    &&& stack[0].title == "Menu"@
    &&& is_root(stack[0].items)
    &&& stack[0].cursor == 0
}

/// A place in the menu: the top list, or on top of it the list that its cursor is on;
/// with every cursor on a row of its list.
pub open spec fn in_menu(stack: Seq<LevelView>) -> bool {
    &&& 1 <= stack.len() <= 2
    &&& stack[0].title == "Menu"@
    &&& is_root(stack[0].items)
    &&& stack.len() == 2 ==> (stack[0].selected() matches Some(Item::Submenu(title, items))
        && stack[1].title == title@ && stack[1].items == items@)
    &&& cursors_in_range(stack)
}

fn root_items() -> (items: &'static [Item])
    ensures
        is_root(items@),
{
    &[
        Item::Submenu(
            "Lock",
            &[Item::Choice("true", Setting::Lock, true), Item::Choice("false", Setting::Lock, false)],
        ),
        Item::Submenu(
            "Repeater",
            &[
                Item::Choice("true", Setting::Repeater, true),
                Item::Choice("false", Setting::Repeater, false),
            ],
        ),
    ]
}

pub struct Menu {
    stack: Vec<Level>,
}

impl View for Menu {
    type V = Seq<LevelView>;

    closed spec fn view(&self) -> Seq<LevelView> {
        self.stack@.map_values(
            |level: Level|
                LevelView {
                    title: level.title@,
                    items: level.items@,
                    cursor: level.cursor as nat,
                },
        )
    }
}

impl Menu {
    /// There is a list to show.
    pub open spec fn is_open(self) -> bool {
        self@.len() > 0
    }

    /// The menu is open, and every cursor is on a row of its list.
    pub open spec fn wf(self) -> bool {
        &&& self.is_open()
        &&& cursors_in_range(self@)
    }

    pub fn new() -> (menu: Self)
        ensures
            menu.wf(),
            opened(menu@),
            calm(menu@),
    {
        let items: &'static [Item] = root_items();
        let mut stack: Vec<Level> = Vec::new();
        stack.push(Level { title: "Menu", items, cursor: 0 });
        Menu { stack }
    }

    /// Move the cursor, stopping at either end.
    pub fn rotate(&mut self, delta: isize)
        requires
            old(self).is_open(),
        ensures
            final(self).is_open(),
            old(self).wf() ==> final(self).wf(),
            final(self)@ == rotated(old(self)@, delta as int),
    {
        let level = self.level_mut();
        let last = level.items.len();
        let cursor = level.cursor;
        level.cursor = if delta < 0 {
            let back: usize = (-(delta as i128)) as usize;
            let moved_back = cursor.saturating_sub(back);
            if moved_back > last {
                last
            } else {
                moved_back
            }
        } else {
            let ahead: usize = delta as usize;
            if cursor >= last || ahead > last - cursor {
                last
            } else {
                cursor + ahead
            }
        };
        assert(self@ =~= rotated(old(self)@, delta as int));
    }

    /// Act on the row under the cursor. A click on the "Back" of the top list
    /// closes the menu.
    pub fn click(&mut self) -> (outcome: Outcome)
        requires
            old(self).wf(),
        ensures
            (final(self)@, outcome) == clicked(old(self)@),
            cursors_in_range(final(self)@),
            outcome != Outcome::Exit <==> final(self).wf(),
    {
        assert(self@.last().cursor <= self@.last().items.len());
        let Level { items, cursor, .. } = *self.level();
        if cursor == 0 {
            self.stack.pop();
            assert(self@ =~= old(self)@.drop_last());
            return if self.stack.is_empty() {
                Outcome::Exit
            } else {
                Outcome::Stay
            };
        }
        match &items[cursor - 1] {
            Item::Submenu(title, items) => {
                self.stack.push(Level { title: *title, items: *items, cursor: 0 });
                assert(self@ =~= clicked(old(self)@).0);
                Outcome::Stay
            },
            Item::Choice(_, setting, value) => {
                // Choosing returns to the parent list (a top-level choice stays put)
                if self.stack.len() > 1 {
                    self.stack.pop();
                }
                assert(self@ =~= clicked(old(self)@).0);
                Outcome::SetTo(*setting, *value)
            },
        }
    }

    pub fn title(&self) -> (title: &'static str)
        requires
            self.is_open(),
        ensures
            title@ == self@.last().title,
    {
        self.level().title
    }

    pub fn cursor(&self) -> (cursor: usize)
        requires
            self.is_open(),
        ensures
            cursor == self@.last().cursor,
    {
        self.level().cursor
    }

    /// Rows of the current list, "Back" first. `current` says whether a
    /// choice is the setting's present value (drawn with a *).
    pub fn rows(&self, current: impl Fn(Setting, bool) -> bool) -> (rows: Vec<
        (&'static str, bool),
    >)
        requires
            self.is_open(),
            forall|setting: Setting, value: bool| call_requires(current, (setting, value)),
        ensures
            rows@.len() == self@.last().items.len() + 1,
            rows@[0].0@ == "Back"@ && !rows@[0].1,
            forall|i: int|
                0 <= i < self@.last().items.len() ==> {
                    let item = #[trigger] self@.last().items[i];
                    &&& rows@[i + 1].0@ == label_of(item)
                    &&& item matches Item::Submenu(label, _) ==> rows@[i + 1].0@ == label@
                    &&& item matches Item::Choice(label, _, _) ==> rows@[i + 1].0@ == label@
                    &&& item is Submenu ==> !rows@[i + 1].1
                    &&& item matches Item::Choice(_, setting, value) ==> call_ensures(
                        current,
                        (setting, value),
                        rows@[i + 1].1,
                    )
                },
    {
        let mut rows: Vec<(&'static str, bool)> = Vec::new();
        rows.push((BACK, false));
        let items = self.level().items;
        let mut i: usize = 0;
        while i < items.len()
            invariant
                i <= items@.len(),
                items@ == self@.last().items,
                forall|setting: Setting, value: bool| call_requires(current, (setting, value)),
                rows@.len() == i + 1,
                rows@[0].0@ == "Back"@ && !rows@[0].1,
                forall|j: int|
                    0 <= j < i ==> {
                        let item = #[trigger] items@[j];
                        &&& rows@[j + 1].0@ == label_of(item)
                        &&& item is Submenu ==> !rows@[j + 1].1
                        &&& item matches Item::Choice(_, setting, value) ==> call_ensures(
                            current,
                            (setting, value),
                            rows@[j + 1].1,
                        )
                    },
            decreases items@.len() - i,
        {
            let row = match &items[i] {
                Item::Submenu(label, _) => (*label, false),
                Item::Choice(label, setting, value) => (*label, current(*setting, *value)),
            };
            rows.push(row);
            i += 1;
        }
        rows
    }

    /// The list that is shown: there is one exactly while the menu is open.
    fn level(&self) -> (level: &Level)
        requires
            self.is_open(),
        ensures
            *level == self.stack@.last(),
            level.title@ == self@.last().title,
            level.items@ == self@.last().items,
            level.cursor == self@.last().cursor,
    {
        self.stack.last().unwrap()
    }

    fn level_mut(&mut self) -> (level: &mut Level)
        requires
            old(self).is_open(),
        ensures
            *level == old(self).stack@.last(),
            final(self).stack@ == old(self).stack@.drop_last().push(*final(level)),
    {
        self.stack.last_mut().unwrap()
    }
}

/// Every cursor is on a row of its list: on "Back" or on one of the items.
pub open spec fn cursors_in_range(stack: Seq<LevelView>) -> bool {
    forall|i: int| 0 <= i < stack.len() ==> (#[trigger] stack[i]).cursor <= stack[i].items.len()
}

/// No list has its cursor on a choice: a click cannot change a setting.
pub open spec fn calm(stack: Seq<LevelView>) -> bool {
    forall|i: int| 0 <= i < stack.len() ==> !((#[trigger] stack[i]).selected() matches Some(Item::Choice(..)))
}

/// The stack after `n` clicks, or after as many of them as it takes to leave.
pub open spec fn after_clicks(stack: Seq<LevelView>, n: nat) -> Seq<LevelView>
    decreases n,
{
    if n == 0 || stack.len() == 0 {
        stack
    } else {
        after_clicks(clicked(stack).0, (n - 1) as nat)
    }
}

/// Stray clicks never change a setting: from a calm menu, as a freshly opened one
/// is, no click sets anything, however often the knob is clicked without being
/// turned.
pub proof fn law_stray_clicks_set_nothing(stack: Seq<LevelView>, n: nat)
    requires
        calm(stack),
    ensures
        calm(after_clicks(stack, n)),
        after_clicks(stack, n).len() > 0 ==> !(clicked(after_clicks(stack, n)).1 is SetTo),
    decreases n,
{
    if n > 0 && stack.len() > 0 {
        let next = clicked(stack).0;
        assert(!(stack[stack.len() - 1].selected() matches Some(Item::Choice(..))));
        assert forall|i: int| 0 <= i < next.len() implies !((#[trigger] next[i]).selected() matches Some(
            Item::Choice(..),
        )) by {
            if i < stack.len() {
                assert(next[i] == stack[i]);
            }
        }
        law_stray_clicks_set_nothing(next, (n - 1) as nat);
    } else if stack.len() > 0 {
        assert(!(stack[stack.len() - 1].selected() matches Some(Item::Choice(..))));
    }
}

/// A list opens with the cursor on "Back": what the menu shows first, and what
/// entering a submenu shows, is calm if what was there before is.
pub proof fn law_lists_open_on_back(stack: Seq<LevelView>)
    requires
        stack.len() > 0,
        calm(stack),
        stack.last().selected() is Some,
    ensures
        clicked(stack).0.len() == stack.len() + 1,
        clicked(stack).0.last().cursor == 0,
        calm(clicked(stack).0),
{
    assert(!(stack[stack.len() - 1].selected() matches Some(Item::Choice(..))));
    law_stray_clicks_set_nothing(stack, 1);
    reveal_with_fuel(after_clicks, 2);
    assert(after_clicks(stack, 1) == clicked(stack).0);
}

/// Something that is done to a menu.
pub ghost enum Move {
    Turn(int),
    Click,
}

/// The stack after a move. A menu that has been left stays left.
pub open spec fn after_move(stack: Seq<LevelView>, m: Move) -> Seq<LevelView> {
    if stack.len() == 0 {
        stack
    } else {
        match m {
            Move::Turn(delta) => rotated(stack, delta),
            Move::Click => clicked(stack).0,
        }
    }
}

/// The stack after one move after the other.
pub open spec fn after_moves(stack: Seq<LevelView>, moves: Seq<Move>) -> Seq<LevelView>
    decreases moves.len(),
{
    if moves.len() == 0 {
        stack
    } else {
        after_move(after_moves(stack, moves.drop_last()), moves.last())
    }
}

/// Whether a move is a click that is answered with `Exit`.
pub open spec fn exits(stack: Seq<LevelView>, m: Move) -> bool {
    stack.len() > 0 && m is Click && clicked(stack).1 == Outcome::Exit
}

/// Whether one of the moves has been answered with `Exit`: an earlier one, or the last.
pub open spec fn has_exited(stack: Seq<LevelView>, moves: Seq<Move>) -> bool
    decreases moves.len(),
{
    moves.len() > 0 && (has_exited(stack, moves.drop_last()) || exits(
        after_moves(stack, moves.drop_last()),
        moves.last(),
    ))
}

/// A menu, reached from one that was just opened by any run of turns and clicks, can
/// be shown, turned and clicked in (its title, cursor and rows can be asked for, and
/// `rotate` and `click` be called) if and only if no click so far has been answered
/// with `Exit`.
pub proof fn law_menu_is_usable_until_exit(start: Menu, moves: Seq<Move>, menu: Menu)
    requires
        opened(start@),
        menu@ == after_moves(start@, moves),
    ensures
        menu.is_open() <==> !has_exited(start@, moves),
        menu.wf() <==> !has_exited(start@, moves),
{
    law_menu_is_open_until_exit(start@, moves);
}

/// Whatever is done to a menu, there is a list to show, turn and click in, until a
/// click has been answered with `Exit`, and none after that; and as long as there is
/// one, it is the top list, or a list of choices that was entered from it.
pub proof fn law_menu_is_open_until_exit(stack: Seq<LevelView>, moves: Seq<Move>)
    requires
        opened(stack),
    ensures
        after_moves(stack, moves).len() == 0 <==> has_exited(stack, moves),
        after_moves(stack, moves).len() > 0 ==> in_menu(after_moves(stack, moves)),
    decreases moves.len(),
{
    if moves.len() > 0 {
        let earlier = moves.drop_last();
        law_menu_is_open_until_exit(stack, earlier);
        let before = after_moves(stack, earlier);
        if before.len() > 0 {
            lemma_move_stays_in_menu(before, moves.last());
        }
    } else {
        lemma_opened_in_menu(stack);
    }
}

proof fn lemma_opened_in_menu(stack: Seq<LevelView>)
    requires
        opened(stack),
    ensures
        in_menu(stack),
{
}

proof fn lemma_move_stays_in_menu(stack: Seq<LevelView>, m: Move)
    requires
        in_menu(stack),
    ensures
        after_move(stack, m).len() == 0 <==> exits(stack, m),
        !exits(stack, m) ==> in_menu(after_move(stack, m)),
{
    let next = after_move(stack, m);
    assert(stack[stack.len() - 1].cursor <= stack[stack.len() - 1].items.len());
    assert forall|i: int| 0 <= i < next.len() implies (#[trigger] next[i]).cursor
        <= next[i].items.len() by {
        if i < stack.len() {
            assert(stack[i].cursor <= stack[i].items.len());
        }
    }
}

/// Wherever the menu is, with the cursor on "Back" it is calm: no stray click sets
/// anything, however many there are.
pub proof fn law_back_is_calm(stack: Seq<LevelView>, n: nat)
    requires
        in_menu(stack),
        stack.last().cursor == 0,
    ensures
        calm(stack),
        after_clicks(stack, n).len() > 0 ==> !(clicked(after_clicks(stack, n)).1 is SetTo),
{
    assert forall|i: int| 0 <= i < stack.len() implies !((#[trigger] stack[i]).selected() matches Some(
        Item::Choice(..),
    )) by {
        assert(stack[i].cursor <= stack[i].items.len());
    }
    law_stray_clicks_set_nothing(stack, n);
}

/// From wherever it is, the menu can be left within two clicks: turn to "Back" and
/// click, and once more if that led back to the top list.
pub proof fn law_menu_can_be_left(stack: Seq<LevelView>)
    requires
        in_menu(stack),
    ensures
        ({
            let (parent, outcome) = clicked(rotated(stack, -2));
            if stack.len() == 1 {
                parent.len() == 0 && outcome == Outcome::Exit
            } else {
                &&& outcome == Outcome::Stay
                &&& parent == seq![stack[0]]
                &&& clicked(rotated(parent, -2)).0.len() == 0
                &&& clicked(rotated(parent, -2)).1 == Outcome::Exit
            }
        }),
{
    assert(stack[0].cursor <= stack[0].items.len());
    if stack.len() == 2 {
        assert(stack[1].cursor <= stack[1].items.len());
        assert(rotated(stack, -2).drop_last() =~= seq![stack[0]]);
    }
}

/// "Back" undoes the entering of a submenu.
pub proof fn law_back_undoes_submenu(stack: Seq<LevelView>)
    requires
        stack.len() > 0,
        stack.last().selected() matches Some(Item::Submenu(..)),
    ensures
        clicked(clicked(stack).0) == (stack, Outcome::Stay),
{
    assert(clicked(stack).0.drop_last() =~= stack);
}

/// Turning the knob one way and back leaves the cursor where it was, unless it
/// ran into the end of the list.
pub proof fn law_turn_and_back(stack: Seq<LevelView>, delta: int)
    requires
        stack.len() > 0,
        0 <= stack.last().cursor + delta <= stack.last().items.len(),
        stack.last().cursor <= stack.last().items.len(),
    ensures
        rotated(rotated(stack, delta), -delta) == stack,
{
    assert(rotated(rotated(stack, delta), -delta) =~= stack);
}

/// However far the knob is turned, the cursor stays on a row of the list.
pub proof fn law_cursor_stays_on_list(stack: Seq<LevelView>, delta: int)
    requires
        stack.len() > 0,
        cursors_in_range(stack),
    ensures
        cursors_in_range(rotated(stack, delta)),
        rotated(stack, delta).drop_last() == stack.drop_last(),
{
    assert(rotated(stack, delta).drop_last() =~= stack.drop_last());
    assert forall|i: int| 0 <= i < stack.len() implies (#[trigger] rotated(stack, delta)[i]).cursor
        <= rotated(stack, delta)[i].items.len() by {
        assert(stack[i].cursor <= stack[i].items.len());
    }
}

/// Choosing sets exactly what the row says, and returns to the parent list with
/// its cursor where it was.
pub proof fn law_choice_returns_to_parent(
    parent: Seq<LevelView>,
    list: LevelView,
    setting: Setting,
    value: bool,
)
    requires
        parent.len() > 0,
        list.selected() matches Some(Item::Choice(_, s, v)) && s == setting && v == value,
    ensures
        clicked(parent.push(list)) == (parent, Outcome::SetTo(setting, value)),
{
    assert(parent.push(list).drop_last() =~= parent);
}

/// From the top list, every setting can be given either value: turn to its
/// list, click, turn to the value, click.
pub proof fn law_every_setting_reachable(top: LevelView, setting: Setting, value: bool)
    requires
        is_root(top.items),
        top.cursor == 0,
    ensures
        ({
            let to_list: int = if setting == Setting::Lock {
                1
            } else {
                2
            };
            let to_value: int = if value {
                1
            } else {
                2
            };
            let turned = rotated(seq![top], to_list);
            let entered = clicked(turned).0;
            clicked(rotated(entered, to_value)) == (turned, Outcome::SetTo(setting, value))
        }),
{
    let to_list: int = if setting == Setting::Lock {
        1
    } else {
        2
    };
    let to_value: int = if value {
        1
    } else {
        2
    };
    let turned = rotated(seq![top], to_list);
    let entered = clicked(turned).0;
    assert(entered.drop_last() =~= turned);
    assert(rotated(entered, to_value).drop_last() =~= turned);
}

/// A turn moves the cursor of the list that is shown by as many rows, but no further
/// than "Back" and the last row; nothing else changes.
pub proof fn law_turn_moves_the_cursor(stack: Seq<LevelView>, delta: int)
    requires
        stack.len() > 0,
    ensures
        ({
            let top = stack.last();
            let turned = rotated(stack, delta);
            let rows = top.items.len();
            &&& turned.len() == stack.len()
            &&& turned.drop_last() == stack.drop_last()
            &&& turned.last().title == top.title
            &&& turned.last().items == top.items
            &&& 0 <= top.cursor + delta <= rows ==> turned.last().cursor == top.cursor + delta
            &&& top.cursor + delta < 0 ==> turned.last().cursor == 0
            &&& top.cursor + delta > rows ==> turned.last().cursor == rows
        }),
{
    assert(rotated(stack, delta).drop_last() =~= stack.drop_last());
}

/// A click does what the row under the cursor says: "Back" leaves the list, and the menu
/// if it was the top one; a submenu opens as a list with that title and those rows, on
/// "Back"; and a choice is reported as it stands, and leaves the list unless it is the
/// top one.
pub proof fn law_click_does_what_the_row_says(stack: Seq<LevelView>)
    requires
        stack.len() > 0,
        stack.last().cursor <= stack.last().items.len(),
    ensures
        ({
            let top = stack.last();
            let (after, outcome) = clicked(stack);
            &&& top.cursor == 0 ==> after == stack.drop_last()
            &&& top.cursor == 0 && stack.len() == 1 ==> outcome == Outcome::Exit
            &&& top.cursor == 0 && stack.len() > 1 ==> outcome == Outcome::Stay
            &&& top.cursor > 0 ==> match top.items[top.cursor - 1] {
                Item::Submenu(title, items) => {
                    &&& outcome == Outcome::Stay
                    &&& after.len() == stack.len() + 1
                    &&& after.drop_last() == stack
                    &&& after.last().title == title@
                    &&& after.last().items == items@
                    &&& after.last().cursor == 0
                },
                Item::Choice(_, setting, value) => {
                    &&& outcome == Outcome::SetTo(setting, value)
                    &&& stack.len() > 1 ==> after == stack.drop_last()
                    &&& stack.len() == 1 ==> after == stack
                },
            }
        }),
{
    if stack.last().cursor > 0 {
        if stack.last().items[stack.last().cursor - 1] is Submenu {
            assert(clicked(stack).0.drop_last() =~= stack);
        }
    }
}

/// What the menu offers when it opens: a list for each setting, and in it the two values
/// that the setting can have, each under its own name.
pub proof fn law_menu_offers_both_values_of_each_setting(stack: Seq<LevelView>)
    requires
        opened(stack),
    ensures
        stack.len() == 1,
        stack[0].title == "Menu"@,
        stack[0].cursor == 0,
        stack[0].items.len() == 2,
        stack[0].items[0] matches Item::Submenu(label, sub) && label@ == "Lock"@ && sub@.len() == 2
            && (sub@[0] matches Item::Choice(l, s, v) && l@ == "true"@ && s == Setting::Lock && v)
            && (sub@[1] matches Item::Choice(l, s, v) && l@ == "false"@ && s == Setting::Lock && !v),
        stack[0].items[1] matches Item::Submenu(label, sub) && label@ == "Repeater"@ && sub@.len()
            == 2 && (sub@[0] matches Item::Choice(l, s, v) && l@ == "true"@ && s
            == Setting::Repeater && v) && (sub@[1] matches Item::Choice(l, s, v) && l@ == "false"@
            && s == Setting::Repeater && !v),
{
}

} // verus!
