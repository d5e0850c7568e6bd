//! The birthday database: answering `/cumpleanios` and greeting the users
//! whose birthday is today.

use vstd::prelude::*;
use vstd::string::*;
use crate::text::{decimal, decimal_pad2, digit_char, is_ascii_digit, push_decimal_pad2};
use chrono::Datelike;

verus! {

/// One entry of the birthday database.
#[derive(Debug, Clone, PartialEq, Eq)]
pub struct User {
    pub name: String,
    /// The birthday, written `DD-MM`.
    pub birthday: String,
    /// The chat to which the birthday greeting is sent.
    pub chat_id: i64,
}

/// A birthday greeting to send.
#[derive(Debug, Clone, PartialEq, Eq)]
pub struct Greeting {
    pub chat_id: i64,
    pub text: String,
}

/// The greeting sent to `name` on their birthday.
pub open spec fn greeting_text(name: Seq<char>) -> Seq<char> {
    "¡Feliz Cumpleaños "@ + name + "! Toda la palabanda está de fiesta."@
}

/// The `DD-MM` key of a date.
pub open spec fn birthday_key(day: nat, month: nat) -> Seq<char> {
    decimal_pad2(day) + seq!['-'] + decimal_pad2(month)
}

/// The greetings owed to `users` on the day written `today`: one per user
/// whose birthday is `today`, in the order of the database.
pub open spec fn greetings_for(users: Seq<User>, today: Seq<char>) -> Seq<(i64, Seq<char>)>
    decreases users.len(),
{
    if users.len() == 0 {
        seq![]
    } else {
        let rest = greetings_for(users.drop_last(), today);
        let u = users.last();
        if u.birthday@ == today {
            rest.push((u.chat_id, greeting_text(u.name@)))
        } else {
            rest
        }
    }
}

/// The view of a list of greetings: chat and text of each, in order.
pub open spec fn greetings_view(gs: Seq<Greeting>) -> Seq<(i64, Seq<char>)> {
    gs.map_values(|g: Greeting| (g.chat_id, g.text@))
}

/// The first user of `users` called `name`, if any.
pub open spec fn find_user(users: Seq<User>, name: Seq<char>) -> Option<User>
    decreases users.len(),
{
    if users.len() == 0 {
        None
    } else if users[0].name@ == name {
        Some(users[0])
    } else {
        find_user(users.drop_first(), name)
    }
}

/// The answer to `/cumpleanios mention`.
pub open spec fn birthday_answer(users: Seq<User>, mention: Seq<char>) -> Seq<char> {
    match find_user(users, mention) {
        Some(u) => "🎂 El cumpleaños de "@ + u.name@ + " es el "@ + u.birthday@ + "."@,
        None => "❌ No encontré a "@ + mention + " en mi base de datos."@,
    }
}

/// The `DD-MM` key of the given day and month, each padded to two digits.
pub fn today_key(day: u32, month: u32) -> (key: String)
    ensures
        key@ == birthday_key(day as nat, month as nat),
{
    let mut key = String::new();
    push_decimal_pad2(&mut key, day as u64);
    key.append("-");
    push_decimal_pad2(&mut key, month as u64);
    proof {
        reveal_strlit("-");
        assert(key@ =~= birthday_key(day as nat, month as nat));
    }
    key
}

/// The greeting sent to a user on their birthday.
pub fn greeting_for(name: &String) -> (text: String)
    ensures
        text@ == greeting_text(name@),
{
    let mut text = String::new();
    text.append("¡Feliz Cumpleaños ");
    text.append(name.as_str());
    text.append("! Toda la palabanda está de fiesta.");
    assert(text@ =~= greeting_text(name@));
    text
}

/// The greetings owed on the day whose key is `today`.
pub fn birthday_greetings(users: &Vec<User>, today: &String) -> (gs: Vec<Greeting>)
    ensures
        greetings_view(gs@) == greetings_for(users@, today@),
{
    let mut gs: Vec<Greeting> = Vec::new();
    let n = users.len();
    for i in 0..n
        invariant
            n == users@.len(),
            greetings_view(gs@) == greetings_for(users@.take(i as int), today@),
    {
        let u = &users[i];
        assert(users@.take(i + 1).drop_last() =~= users@.take(i as int));
        assert(users@.take(i + 1).last() == users@[i as int]);
        if u.birthday == *today {
            let ghost before = greetings_view(gs@);
            let text = greeting_for(&u.name);
            gs.push(Greeting { chat_id: u.chat_id, text });
            assert(greetings_view(gs@) =~= before.push((u.chat_id, greeting_text(u.name@))));
        }
    }
    assert(users@.take(n as int) =~= users@);
    gs
}

/// Today's day of the month and month in the machine's time zone
/// (`chrono::Local::now`, read through `Datelike::day` and
/// `Datelike::month`). chrono documents the day as 1 to 31 and the month
/// as 1 to 12; which day it is depends on the clock.
#[verifier::external_body]
fn local_day_and_month() -> (dm: (u32, u32))
    ensures
        1 <= dm.0 <= 31,
        1 <= dm.1 <= 12,
{
    let now = chrono::Local::now();
    (now.day(), now.month())
}

/// The greetings owed today, by the machine's clock and time zone.
pub fn check_birthdays(users: &Vec<User>) -> (gs: Vec<Greeting>)
    ensures
        exists|day: nat, month: nat|
            1 <= day <= 31 && 1 <= month <= 12 && greetings_view(gs@) == greetings_for(
                users@,
                #[trigger] birthday_key(day, month),
            ),
{
    let (day, month) = local_day_and_month();
    let today = today_key(day, month);
    let gs = birthday_greetings(users, &today);
    assert(greetings_view(gs@) == greetings_for(users@, birthday_key(day as nat, month as nat)));
    gs
}

/// The answer to `/cumpleanios mention`: the birthday of the first user
/// called `mention`, or a message saying that nobody is called so.
pub fn birthday_reply(users: &Vec<User>, mention: &String) -> (text: String)
    ensures
        text@ == birthday_answer(users@, mention@),
{
    let n = users.len();
    let mut i: usize = 0;
    assert(users@.skip(0) =~= users@);
    while i < n
        invariant
            n == users@.len(),
            i <= n,
            find_user(users@, mention@) == find_user(users@.skip(i as int), mention@),
        decreases n - i,
    {
        let u = &users[i];
        if u.name == *mention {
            let mut text = String::new();
            text.append("🎂 El cumpleaños de ");
            text.append(u.name.as_str());
            text.append(" es el ");
            text.append(u.birthday.as_str());
            text.append(".");
            assert(text@ =~= birthday_answer(users@, mention@));
            return text;
        }
        assert(users@.skip(i as int).drop_first() =~= users@.skip(i + 1));
        i = i + 1;
    }
    let mut text = String::new();
    text.append("❌ No encontré a ");
    text.append(mention.as_str());
    text.append(" en mi base de datos.");
    assert(text@ =~= birthday_answer(users@, mention@));
    text
}


proof fn lemma_greeting_source(users: Seq<User>, today: Seq<char>, k: int)
    requires
        0 <= k < greetings_for(users, today).len(),
    ensures
        greets_a_celebrant(users, today, greetings_for(users, today)[k]),
    decreases users.len(),
{
    let rest = users.drop_last();
    let gs = greetings_for(users, today);
    let gr = greetings_for(rest, today);
    let last = users.last();
    let g_last = (last.chat_id, greeting_text(last.name@));
    if last.birthday@ == today {
        assert(gs == gr.push(g_last));
    } else {
        assert(gs == gr);
    }
    if k < gr.len() {
        lemma_greeting_source(rest, today, k);
        let i = choose|i: int|
            0 <= i < rest.len() && rest[i].birthday@ == today && gr[k] == (#[trigger] rest[i].chat_id, greeting_text(
                rest[i].name@,
            ));
        assert(rest[i] == users[i]);
        assert(users[i].birthday@ == today);
        assert(gs[k] == (users[i].chat_id, greeting_text(users[i].name@)));
    } else {
        let i = users.len() - 1;
        assert(users[i] == last);
        assert(users[i].birthday@ == today);
        assert(gs[k] == g_last);
        assert(gs[k] == (users[i].chat_id, greeting_text(users[i].name@)));
    }
}

/// `g` greets some user of `users` whose birthday is `today`.
pub open spec fn greets_a_celebrant(users: Seq<User>, today: Seq<char>, g: (i64, Seq<char>)) -> bool {
    exists|i: int|
        0 <= i < users.len() && users[i].birthday@ == today && g == (#[trigger] users[i].chat_id, greeting_text(
            users[i].name@,
        ))
}

/// `gs` holds the greeting of `u`.
pub open spec fn greets(gs: Seq<(i64, Seq<char>)>, u: User) -> bool {
    exists|k: int| 0 <= k < gs.len() && #[trigger] gs[k] == (u.chat_id, greeting_text(u.name@))
}

/// A greeting goes to every user whose birthday is `today`, and to
/// nobody else; there are never more greetings than users.
pub proof fn greetings_match_birthdays(users: Seq<User>, today: Seq<char>)
    ensures
        greetings_for(users, today).len() <= users.len(),
        forall|k: int|
            0 <= k < greetings_for(users, today).len() ==> #[trigger] greets_a_celebrant(
                users,
                today,
                greetings_for(users, today)[k],
            ),
        forall|i: int|
            0 <= i < users.len() && users[i].birthday@ == today ==> #[trigger] greets(
                greetings_for(users, today),
                users[i],
            ),
{
    assert forall|k: int| 0 <= k < greetings_for(users, today).len() implies #[trigger] greets_a_celebrant(
        users,
        today,
        greetings_for(users, today)[k],
    ) by {
        lemma_greeting_source(users, today, k);
    }
    assert forall|i: int| 0 <= i < users.len() && users[i].birthday@ == today implies #[trigger] greets(
        greetings_for(users, today),
        users[i],
    ) by {
        lemma_user_greeted(users, today, i);
    }
    lemma_greetings_len(users, today);
}

proof fn lemma_greetings_len(users: Seq<User>, today: Seq<char>)
    ensures
        greetings_for(users, today).len() <= users.len(),
    decreases users.len(),
{
    if users.len() > 0 {
        lemma_greetings_len(users.drop_last(), today);
    }
}

proof fn lemma_user_greeted(users: Seq<User>, today: Seq<char>, i: int)
    requires
        0 <= i < users.len(),
        users[i].birthday@ == today,
    ensures
        greets(greetings_for(users, today), users[i]),
    decreases users.len(),
{
    let rest = users.drop_last();
    let gs = greetings_for(users, today);
    let gr = greetings_for(rest, today);
    let last = users.last();
    let g_last = (last.chat_id, greeting_text(last.name@));
    if last.birthday@ == today {
        assert(gs == gr.push(g_last));
    } else {
        assert(gs == gr);
    }
    if i < rest.len() {
        assert(rest[i] == users[i]);
        lemma_user_greeted(rest, today, i);
        let k = choose|k: int| 0 <= k < gr.len() && gr[k] == (rest[i].chat_id, greeting_text(rest[i].name@));
        assert(gs[k] == gr[k]);
    } else {
        assert(users[i] == last);
        assert(gs[gs.len() - 1] == g_last);
    }
}

proof fn lemma_decimal_small(n: nat)
    requires
        n < 100,
    ensures
        n < 10 ==> decimal(n) == seq![digit_char(n as int)],
        10 <= n ==> decimal(n) == seq![digit_char((n / 10) as int), digit_char((n % 10) as int)],
{
    if n >= 10 {
        assert(decimal((n / 10) as nat) == seq![digit_char((n / 10) as int)]);
        assert(decimal(n) =~= seq![digit_char((n / 10) as int), digit_char((n % 10) as int)]);
    }
}

/// The key of a calendar date is five characters `DD-MM`: two digits,
/// a dash, two digits.
pub proof fn birthday_key_shape(day: nat, month: nat)
    requires
        1 <= day <= 31,
        1 <= month <= 12,
    ensures
        birthday_key(day, month).len() == 5,
        birthday_key(day, month)[2] == '-',
        forall|i: int| 0 <= i < 5 && i != 2 ==> is_ascii_digit(#[trigger] birthday_key(day, month)[i]),
{
    lemma_decimal_small(day);
    lemma_decimal_small(month);
    assert(forall|d: int| 0 <= d < 10 ==> is_ascii_digit(#[trigger] digit_char(d)));
    let k = birthday_key(day, month);
    let a = decimal_pad2(day);
    let b = decimal_pad2(month);
    assert(a.len() == 2);
    assert(b.len() == 2);
    assert(k =~= a + seq!['-'] + b);
    assert(is_ascii_digit(a[0]) && is_ascii_digit(a[1]));
    assert(is_ascii_digit(b[0]) && is_ascii_digit(b[1]));
    assert(k[0] == a[0] && k[1] == a[1] && k[3] == b[0] && k[4] == b[1]);
}


proof fn lemma_find_user_first(users: Seq<User>, name: Seq<char>, i: int)
    requires
        0 <= i < users.len(),
        users[i].name@ == name,
        forall|j: int| 0 <= j < i ==> #[trigger] users[j].name@ != name,
    ensures
        find_user(users, name) == Some(users[i]),
    decreases i,
{
    if i > 0 {
        let rest = users.drop_first();
        assert(users[0].name@ != name);
        assert forall|j: int| 0 <= j < i - 1 implies #[trigger] rest[j].name@ != name by {
            assert(rest[j] == users[j + 1]);
        }
        assert(rest[i - 1] == users[i]);
        lemma_find_user_first(rest, name, i - 1);
    }
}

proof fn lemma_find_user_none(users: Seq<User>, name: Seq<char>)
    requires
        forall|j: int| 0 <= j < users.len() ==> #[trigger] users[j].name@ != name,
    ensures
        find_user(users, name) is None,
    decreases users.len(),
{
    if users.len() > 0 {
        let rest = users.drop_first();
        assert(users[0].name@ != name);
        assert forall|j: int| 0 <= j < rest.len() implies #[trigger] rest[j].name@ != name by {
            assert(rest[j] == users[j + 1]);
        }
        lemma_find_user_none(rest, name);
    }
}

/// `/cumpleanios mention` answers with the birthday of the first user of
/// the database whose name is exactly `mention` (not merely starts with
/// it).
pub proof fn birthday_reply_names_first_exact_match(users: Seq<User>, mention: Seq<char>, i: int)
    requires
        0 <= i < users.len(),
        users[i].name@ == mention,
        forall|j: int| 0 <= j < i ==> #[trigger] users[j].name@ != mention,
    ensures
        birthday_answer(users, mention) == "🎂 El cumpleaños de "@ + mention + " es el "@ + users[i].birthday@
            + "."@,
{
    lemma_find_user_first(users, mention, i);
}

/// When no user's name is exactly `mention`, `/cumpleanios mention` says
/// that nobody is called so.
pub proof fn birthday_reply_when_nobody_matches(users: Seq<User>, mention: Seq<char>)
    requires
        forall|j: int| 0 <= j < users.len() ==> #[trigger] users[j].name@ != mention,
    ensures
        birthday_answer(users, mention) == "❌ No encontré a "@ + mention + " en mi base de datos."@,
{
    lemma_find_user_none(users, mention);
}

} // verus!
