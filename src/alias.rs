//! The alias table: short names mapped to shell commands, with the rules for
//! adding, updating, resolving and listing them.
use vstd::prelude::*;
use crate::text::{lower_of, lowercase, same_text, trim_of, trimmed};

verus! {

/// A name and its command, as character sequences.
pub type PairView = (Seq<char>, Seq<char>);

/// The entries of a list of string pairs, as character sequences.
pub open spec fn pairs_view(v: Seq<(String, String)>) -> Seq<PairView> {
    v.map_values(|p: (String, String)| (p.0@, p.1@))
}

/// Some entry of `s` carries the name `k`.
pub open spec fn has_key(s: Seq<PairView>, k: Seq<char>) -> bool {
    exists|i: int| 0 <= i < s.len() && #[trigger] s[i].0 == k
}

/// No name occurs twice among the entries.
pub open spec fn keys_distinct(s: Seq<PairView>) -> bool {
    forall|i: int, j: int|
        0 <= i < s.len() && 0 <= j < s.len() && #[trigger] s[i].0 == #[trigger] s[j].0 ==> i == j
}

/// The mapping that a list of entries with distinct names stands for.
pub open spec fn table_of(s: Seq<PairView>) -> Map<Seq<char>, Seq<char>> {
    Map::new(
        |k: Seq<char>| has_key(s, k),
        |k: Seq<char>| s[choose|i: int| 0 <= i < s.len() && #[trigger] s[i].0 == k].1,
    )
}

/// The line that the listing shows for one alias: `<name> ~> <command>`.
pub open spec fn line_of(name: Seq<char>, command: Seq<char>) -> Seq<char> {
    name + seq![' ', '~', '>', ' '] + command
}

/// With distinct names, the entry at `i` is what the mapping holds for its name.
pub proof fn lemma_table_at(s: Seq<PairView>, i: int)
    requires
        keys_distinct(s),
        0 <= i < s.len(),
    ensures
        table_of(s).contains_key(s[i].0),
        table_of(s)[s[i].0] == s[i].1,
{
    let k = s[i].0;
    assert(has_key(s, k));
    let j = choose|j: int| 0 <= j < s.len() && #[trigger] s[j].0 == k;
    assert(s[j].0 == s[i].0);
}

/// Writing a new command over the entry at `i` updates the mapping at its name.
proof fn lemma_table_update(s: Seq<PairView>, i: int, c: Seq<char>)
    requires
        keys_distinct(s),
        0 <= i < s.len(),
    ensures
        keys_distinct(s.update(i, (s[i].0, c))),
        table_of(s.update(i, (s[i].0, c))) == table_of(s).insert(s[i].0, c),
{
    let t = s.update(i, (s[i].0, c));
    assert forall|a: int, b: int|
        0 <= a < t.len() && 0 <= b < t.len() && #[trigger] t[a].0 == #[trigger] t[b].0 implies a
        == b by {
        assert(t[a].0 == s[a].0 && t[b].0 == s[b].0);
    }
    assert forall|k: Seq<char>| has_key(t, k) == has_key(s, k) by {
        if has_key(s, k) {
            let j = choose|j: int| 0 <= j < s.len() && #[trigger] s[j].0 == k;
            assert(t[j].0 == k);
        }
        if has_key(t, k) {
            let j = choose|j: int| 0 <= j < t.len() && #[trigger] t[j].0 == k;
            assert(s[j].0 == k);
        }
    }
    assert forall|k: Seq<char>| #[trigger]
        table_of(t).contains_key(k) implies table_of(t)[k] == table_of(s).insert(s[i].0, c)[k] by {
        let j = choose|j: int| 0 <= j < t.len() && #[trigger] t[j].0 == k;
        lemma_table_at(t, j);
        if j != i {
            lemma_table_at(s, j);
        }
    }
    assert(table_of(t) =~= table_of(s).insert(s[i].0, c));
}

/// Appending an entry with a new name adds that name to the mapping.
pub(crate) proof fn lemma_table_push(s: Seq<PairView>, k: Seq<char>, c: Seq<char>)
    requires
        keys_distinct(s),
        !has_key(s, k),
    ensures
        keys_distinct(s.push((k, c))),
        table_of(s.push((k, c))) == table_of(s).insert(k, c),
{
    let t = s.push((k, c));
    assert forall|a: int, b: int|
        0 <= a < t.len() && 0 <= b < t.len() && #[trigger] t[a].0 == #[trigger] t[b].0 implies a
        == b by {
        if a < s.len() && b < s.len() {
            assert(t[a].0 == s[a].0 && t[b].0 == s[b].0);
        } else if a < s.len() {
            assert(s[a].0 == k);
        } else if b < s.len() {
            assert(s[b].0 == k);
        }
    }
    assert forall|x: Seq<char>| has_key(t, x) <==> (has_key(s, x) || x == k) by {
        if has_key(s, x) {
            let j = choose|j: int| 0 <= j < s.len() && #[trigger] s[j].0 == x;
            assert(t[j].0 == x);
        }
        if x == k {
            assert(t[s.len() as int].0 == x);
        }
        if has_key(t, x) {
            let j = choose|j: int| 0 <= j < t.len() && #[trigger] t[j].0 == x;
            if j < s.len() {
                assert(s[j].0 == x);
            }
        }
    }
    assert forall|x: Seq<char>| #[trigger]
        table_of(t).contains_key(x) implies table_of(t)[x] == table_of(s).insert(k, c)[x] by {
        let j = choose|j: int| 0 <= j < t.len() && #[trigger] t[j].0 == x;
        lemma_table_at(t, j);
        if j < s.len() {
            lemma_table_at(s, j);
        }
    }
    assert(table_of(t) =~= table_of(s).insert(k, c));
}

/// With distinct names, the last entry's name is not among the others, and
/// the mapping is that of the others with the last entry added.
pub(crate) proof fn lemma_table_drop_last(s: Seq<PairView>)
    requires
        keys_distinct(s),
        s.len() > 0,
    ensures
        keys_distinct(s.drop_last()),
        !has_key(s.drop_last(), s.last().0),
        table_of(s) == table_of(s.drop_last()).insert(s.last().0, s.last().1),
{
    let init = s.drop_last();
    assert forall|i: int, j: int|
        0 <= i < init.len() && 0 <= j < init.len() && #[trigger] init[i].0
            == #[trigger] init[j].0 implies i == j by {
        assert(s[i].0 == s[j].0);
    }
    if has_key(init, s.last().0) {
        let i = choose|i: int| 0 <= i < init.len() && #[trigger] init[i].0 == s.last().0;
        assert(s[i].0 == s[s.len() - 1].0);
    }
    lemma_table_push(init, s.last().0, s.last().1);
    assert(init.push(s.last()) =~= s);
}

/// With distinct names, the mapping has one name for each entry.
pub proof fn lemma_table_len(s: Seq<PairView>)
    requires
        keys_distinct(s),
    ensures
        table_of(s).dom().finite(),
        table_of(s).len() == s.len(),
    decreases s.len(),
{
    if s.len() == 0 {
        assert(table_of(s) =~= Map::<Seq<char>, Seq<char>>::empty());
    } else {
        lemma_table_drop_last(s);
        lemma_table_len(s.drop_last());
        lemma_table_push(s.drop_last(), s.last().0, s.last().1);
    }
}

/// The user's answer to the question whether an existing alias is replaced.
#[derive(Debug, Clone, Copy, PartialEq, Eq, Structural)]
pub enum Reply {
    Yes,
    No,
    /// Neither yes nor no: taken as no.
    Invalid,
}

/// The reply that an answer stands for once it is trimmed and lower-cased.
pub open spec fn reply_spec(folded: Seq<char>) -> Reply {
    if folded == seq!['y'] || folded == seq!['y', 'e', 's'] {
        Reply::Yes
    } else if folded == seq!['n'] || folded == seq!['n', 'o'] {
        Reply::No
    } else {
        Reply::Invalid
    }
}

/// Reads a reply from an answer that is already trimmed and lower-cased.
pub fn reply_of(folded: &str) -> (r: Reply)
    ensures
        r == reply_spec(folded@),
{
    proof {
        reveal_strlit("y");
        reveal_strlit("yes");
        reveal_strlit("n");
        reveal_strlit("no");
    }
    assert("y"@ =~= seq!['y']);
    assert("yes"@ =~= seq!['y', 'e', 's']);
    assert("n"@ =~= seq!['n']);
    assert("no"@ =~= seq!['n', 'o']);
    if same_text(folded, "y") || same_text(folded, "yes") {
        Reply::Yes
    } else if same_text(folded, "n") || same_text(folded, "no") {
        Reply::No
    } else {
        Reply::Invalid
    }
}

/// Reads a reply from a line the user typed: surrounding white space and
/// letter case do not matter.
pub fn read_reply(line: &str) -> (r: Reply)
    ensures
        r == reply_spec(lower_of(trim_of(line@))),
{
    let t = trimmed(line);
    let folded = lowercase(t);
    reply_of(folded.as_str())
}

/// What an add request did to the table.
#[derive(Debug, Clone, Copy, PartialEq, Eq, Structural)]
pub enum Upsert {
    /// The name was new and has been stored.
    Inserted,
    /// The name existed and its command was replaced.
    Updated,
    /// The name existed and the user declined the update.
    Kept,
    /// The name existed and the reply was not understood, so nothing changed.
    KeptOnInvalid,
}

/// The mapping after an add request for `name` and `command`, where `reply`
/// is the user's answer, consulted only when `name` is already there.
pub open spec fn upserted(
    m: Map<Seq<char>, Seq<char>>,
    name: Seq<char>,
    command: Seq<char>,
    reply: Reply,
) -> Map<Seq<char>, Seq<char>> {
    if !m.contains_key(name) || reply == Reply::Yes {
        m.insert(name, command)
    } else {
        m
    }
}

/// How an add request is reported, given whether the name existed.
pub open spec fn upsert_outcome(existed: bool, reply: Reply) -> Upsert {
    if !existed {
        Upsert::Inserted
    } else {
        match reply {
            Reply::Yes => Upsert::Updated,
            Reply::No => Upsert::Kept,
            Reply::Invalid => Upsert::KeptOnInvalid,
        }
    }
}

/// The alias table. Names are unique; the order of entries carries no meaning.
pub struct Aliases {
    entries: Vec<(String, String)>,
}

impl View for Aliases {
    type V = Map<Seq<char>, Seq<char>>;

    open spec fn view(&self) -> Self::V {
        table_of(self.pairs())
    }
}

impl Aliases {
    /// The entries as character sequences, in their stored order.
    pub closed spec fn pairs(&self) -> Seq<PairView> {
        pairs_view(self.entries@)
    }

    /// Well-formed: no name occurs twice.
    pub open spec fn wf(&self) -> bool {
        keys_distinct(self.pairs())
    }

    /// An empty table.
    pub fn new() -> (r: Aliases)
        ensures
            r.wf(),
            r@ == Map::<Seq<char>, Seq<char>>::empty(),
    {
        let r = Aliases { entries: Vec::new() };
        assert(r.pairs() =~= Seq::<PairView>::empty());
        assert(table_of(r.pairs()) =~= Map::<Seq<char>, Seq<char>>::empty());
        r
    }

    /// The number of aliases.
    pub fn len(&self) -> (r: usize)
        requires
            self.wf(),
        ensures
            r == self@.len(),
    {
        proof {
            lemma_table_len(self.pairs());
        }
        self.entries.len()
    }

    /// The position of `name` among the entries, if it is there.
    fn position(&self, name: &String) -> (r: Option<usize>)
        requires
            self.wf(),
        ensures
            match r {
                Some(i) => i < self.pairs().len() && self.pairs()[i as int].0 == name@,
                None => !has_key(self.pairs(), name@),
            },
    {
        let mut i: usize = 0;
        while i < self.entries.len()
            invariant
                i <= self.entries@.len(),
                forall|j: int| 0 <= j < i ==> #[trigger] self.pairs()[j].0 != name@,
            decreases self.entries@.len() - i,
        {
            if self.entries[i].0 == *name {
                return Some(i);
            }
            i = i + 1;
        }
        None
    }

    /// A copy of the entries, in stored order.
    pub fn to_pairs(&self) -> (r: Vec<(String, String)>)
        ensures
            pairs_view(r@) == self.pairs(),
    {
        let mut r: Vec<(String, String)> = Vec::new();
        let mut i: usize = 0;
        while i < self.entries.len()
            invariant
                i <= self.entries@.len(),
                r@.len() == i,
                forall|j: int|
                    0 <= j < i ==> (#[trigger] r@[j]).0@ == self.entries@[j].0@ && r@[j].1@
                        == self.entries@[j].1@,
            decreases self.entries@.len() - i,
        {
            let p = (self.entries[i].0.clone(), self.entries[i].1.clone());
            r.push(p);
            i = i + 1;
        }
        assert(pairs_view(r@) =~= self.pairs());
        r
    }

    /// Whether `name` is an alias.
    pub fn contains(&self, name: &String) -> (r: bool)
        requires
            self.wf(),
        ensures
            r == self@.contains_key(name@),
    {
        match self.position(name) {
            Some(i) => {
                proof {
                    lemma_table_at(self.pairs(), i as int);
                }
                true
            },
            None => false,
        }
    }

    /// The command stored for `name`, or `None` where there is no such alias.
    pub fn lookup(&self, name: &String) -> (r: Option<String>)
        requires
            self.wf(),
        ensures
            match r {
                Some(c) => self@.contains_key(name@) && c@ == self@[name@],
                None => !self@.contains_key(name@),
            },
    {
        match self.position(name) {
            Some(i) => {
                proof {
                    lemma_table_at(self.pairs(), i as int);
                }
                Some(self.entries[i].1.clone())
            },
            None => None,
        }
    }

    /// The command to run for `input`: the alias's command where `input` is an
    /// alias, else `input` itself, taken as a command.
    pub fn resolve(&self, input: &String) -> (r: String)
        requires
            self.wf(),
        ensures
            r@ == (if self@.contains_key(input@) {
                self@[input@]
            } else {
                input@
            }),
    {
        match self.lookup(input) {
            Some(c) => c,
            None => input.clone(),
        }
    }

    /// Adds `name` with `command`. Where `name` exists already, `reply` decides:
    /// only `Reply::Yes` replaces the stored command.
    pub fn upsert(&mut self, name: String, command: String, reply: Reply) -> (r: Upsert)
        requires
            old(self).wf(),
        ensures
            final(self).wf(),
            final(self)@ == upserted(old(self)@, name@, command@, reply),
            r == upsert_outcome(old(self)@.contains_key(name@), reply),
    {
        match self.position(&name) {
            Some(i) => {
                proof {
                    lemma_table_at(self.pairs(), i as int);
                }
                match reply {
                    Reply::Yes => {
                        let ghost s = self.pairs();
                        let ghost c = command@;
                        self.entries[i] = (name, command);
                        proof {
                            lemma_table_update(s, i as int, c);
                            assert(self.pairs() =~= s.update(i as int, (s[i as int].0, c)));
                        }
                        Upsert::Updated
                    },
                    Reply::No => Upsert::Kept,
                    Reply::Invalid => Upsert::KeptOnInvalid,
                }
            },
            None => {
                proof {
                    if self@.contains_key(name@) {
                        assert(has_key(self.pairs(), name@));
                    }
                }
                let ghost s = self.pairs();
                let ghost k = name@;
                let ghost c = command@;
                self.entries.push((name, command));
                proof {
                    lemma_table_push(s, k, c);
                    assert(self.pairs() =~= s.push((k, c)));
                }
                Upsert::Inserted
            },
        }
    }

    /// One line `<name> ~> <command>` for each alias, in stored order.
    pub fn listing(&self) -> (r: Vec<String>)
        requires
            self.wf(),
        ensures
            r@.len() == self.pairs().len(),
            r@.len() == self@.len(),
            forall|i: int|
                0 <= i < r@.len() ==> self@.contains_key(self.pairs()[i].0) && #[trigger] r@[i]@
                    == line_of(self.pairs()[i].0, self@[self.pairs()[i].0]),
            forall|k: Seq<char>| #[trigger]
                self@.contains_key(k) ==> exists|i: int|
                    0 <= i < r@.len() && #[trigger] self.pairs()[i].0 == k,
    {
        let mut r: Vec<String> = Vec::new();
        let mut i: usize = 0;
        while i < self.entries.len()
            invariant
                self.wf(),
                i <= self.entries@.len(),
                r@.len() == i,
                forall|j: int|
                    0 <= j < i ==> #[trigger] r@[j]@ == line_of(
                        self.pairs()[j].0,
                        self.pairs()[j].1,
                    ),
            decreases self.entries@.len() - i,
        {
            proof {
                reveal_strlit(" ~> ");
            }
            assert(" ~> "@ =~= seq![' ', '~', '>', ' ']);
            let mut line = self.entries[i].0.clone();
            line.append(" ~> ");
            line.append(self.entries[i].1.as_str());
            assert(self.pairs()[i as int] == (self.entries@[i as int].0@, self.entries@[i as int].1@));
            assert(line@ =~= line_of(self.pairs()[i as int].0, self.pairs()[i as int].1));
            r.push(line);
            i = i + 1;
        }
        proof {
            lemma_table_len(self.pairs());
        }
        assert forall|j: int| 0 <= j < r@.len() implies self@.contains_key(self.pairs()[j].0)
            && #[trigger] r@[j]@ == line_of(self.pairs()[j].0, self@[self.pairs()[j].0]) by {
            lemma_table_at(self.pairs(), j);
        }
        r
    }
}

/// Adding a name that is not yet an alias stores it whatever the reply: a
/// later lookup of that name finds the new command, and every other alias
/// keeps its command.
pub proof fn lemma_add_new_name(
    m: Map<Seq<char>, Seq<char>>,
    name: Seq<char>,
    command: Seq<char>,
    reply: Reply,
)
    requires
        !m.contains_key(name),
    ensures
        upserted(m, name, command, reply).contains_key(name),
        upserted(m, name, command, reply)[name] == command,
        forall|k: Seq<char>|
            k != name ==> (#[trigger] upserted(m, name, command, reply).contains_key(k)
                == m.contains_key(k)) && (m.contains_key(k) ==> upserted(
                m,
                name,
                command,
                reply,
            )[k] == m[k]),
{
}

/// For a name that is already an alias, the reply decides: "no" (or a reply
/// that is not understood) leaves the table as it was, "yes" replaces the
/// command of that name and of no other.
pub proof fn lemma_reply_decides_update(
    m: Map<Seq<char>, Seq<char>>,
    name: Seq<char>,
    command: Seq<char>,
)
    requires
        m.contains_key(name),
    ensures
        upserted(m, name, command, Reply::No) == m,
        upserted(m, name, command, Reply::Invalid) == m,
        upserted(m, name, command, Reply::Yes) == m.insert(name, command),
        upserted(m, name, command, Reply::Yes)[name] == command,
{
}

} // verus!
