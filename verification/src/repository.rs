//! In-memory store of emote log messages, keyed by command name.
//!
//! The store is a list of (command, data) entries with pairwise distinct
//! keys; its model is the finite map from command names to emote data.

use vstd::prelude::*;

pub mod xivapi;

verus! {

/// Failure of a repository operation.
#[derive(Debug, Clone, Copy, PartialEq, Eq, Structural)]
pub enum LogMessageRepositoryError {
    /// No message is stored under the requested command name.
    NotFound,
    /// The paging request limit was reached while loading.
    RequestLimit,
}

/// A conservative page limit; emotes never need more than a few pages.
pub const XIVAPI_REQUEST_LIMIT: u32 = 15;

/// The two message texts of one emote in one language.
#[derive(Debug, PartialEq, Eq)]
pub struct LogMessagePair {
    pub targeted: String,
    pub untargeted: String,
}

impl Clone for LogMessagePair {
    fn clone(&self) -> (r: LogMessagePair)
        ensures
            r == *self,
    {
        LogMessagePair { targeted: self.targeted.clone(), untargeted: self.untargeted.clone() }
    }
}

/// One emote: its id, display name, and messages in both languages.
#[derive(Debug, PartialEq, Eq)]
pub struct EmoteData {
    pub id: u32,
    pub name: String,
    pub en: LogMessagePair,
    pub ja: LogMessagePair,
}

impl Clone for EmoteData {
    fn clone(&self) -> (r: EmoteData)
        ensures
            r == *self,
    {
        EmoteData { id: self.id, name: self.name.clone(), en: self.en.clone(), ja: self.ja.clone() }
    }
}

/// One emote record of the raw data feed: the emote under every command
/// alias it can be invoked by.
#[derive(Debug)]
pub struct LogMessageData {
    pub id: u32,
    pub name: String,
    pub commands: Vec<String>,
    pub en: LogMessagePair,
    pub ja: LogMessagePair,
}

/// The supported output languages.
#[derive(Debug, Clone, Copy, Hash, PartialEq, Eq, Structural)]
pub enum Language {
    En,
    Ja,
}

/// The stored entries: commands with their emote data.
pub type MessagesMap = Vec<(String, EmoteData)>;

// ---------------------------------------------------------------------------
// The model: entries as a finite map.
// ---------------------------------------------------------------------------

/// Are the keys of the entries pairwise distinct?
pub open spec fn sp_keys_unique(entries: Seq<(String, EmoteData)>) -> bool {
    forall|i: int, j: int|
        0 <= i < j < entries.len() ==> (#[trigger] entries[i]).0@ != (#[trigger] entries[j]).0@
}

/// The map the entries denote; a later entry wins over an earlier one.
pub open spec fn sp_entries_map(entries: Seq<(String, EmoteData)>) -> Map<Seq<char>, EmoteData>
    decreases entries.len(),
{
    if entries.len() == 0 {
        Map::empty()
    } else {
        sp_entries_map(entries.drop_last()).insert(entries.last().0@, entries.last().1)
    }
}

/// A key is in the map exactly when some entry holds it.
pub proof fn lemma_entries_map_dom(entries: Seq<(String, EmoteData)>, k: Seq<char>)
    ensures
        sp_entries_map(entries).dom().contains(k) <==> exists|i: int|
            0 <= i < entries.len() && (#[trigger] entries[i]).0@ == k,
    decreases entries.len(),
{
    if entries.len() > 0 {
        lemma_entries_map_dom(entries.drop_last(), k);
        if entries.last().0@ == k {
            assert(entries[entries.len() - 1].0@ == k);
        } else if sp_entries_map(entries).dom().contains(k) {
            let i = choose|i: int|
                0 <= i < entries.drop_last().len() && (#[trigger] entries.drop_last()[i]).0@ == k;
            assert(entries[i].0@ == k);
        } else {
            assert forall|i: int|
                0 <= i < entries.len() implies (#[trigger] entries[i]).0@ != k by {
                if i < entries.len() - 1 {
                    assert(entries.drop_last()[i] == entries[i]);
                }
            }
        }
    }
}

/// With distinct keys, each entry is the map's value at its key.
pub proof fn lemma_entries_map_index(entries: Seq<(String, EmoteData)>, i: int)
    requires
        sp_keys_unique(entries),
        0 <= i < entries.len(),
    ensures
        sp_entries_map(entries).dom().contains(entries[i].0@),
        sp_entries_map(entries)[entries[i].0@] == entries[i].1,
    decreases entries.len(),
{
    if i == entries.len() - 1 {
    } else {
        assert(entries.drop_last()[i] == entries[i]);
        assert forall|a: int, b: int|
            0 <= a < b < entries.drop_last().len() implies (#[trigger] entries.drop_last()[a]).0@
            != (#[trigger] entries.drop_last()[b]).0@ by {
            assert(entries.drop_last()[a] == entries[a]);
            assert(entries.drop_last()[b] == entries[b]);
        }
        lemma_entries_map_index(entries.drop_last(), i);
        assert(entries[i].0@ != entries.last().0@);
    }
}

/// Replacing the entry that holds a key denotes inserting at that key.
proof fn lemma_entries_map_update(entries: Seq<(String, EmoteData)>, i: int, c: String, d: EmoteData)
    requires
        sp_keys_unique(entries),
        0 <= i < entries.len(),
        entries[i].0@ == c@,
    ensures
        sp_entries_map(entries.update(i, (c, d))) == sp_entries_map(entries).insert(c@, d),
    decreases entries.len(),
{
    let e2 = entries.update(i, (c, d));
    if i == entries.len() - 1 {
        assert(e2.drop_last() =~= entries.drop_last());
        assert(e2.last() == (c, d));
        assert(sp_entries_map(entries.drop_last()).insert(entries.last().0@, entries.last().1)
            .insert(c@, d) =~= sp_entries_map(entries.drop_last()).insert(c@, d));
    } else {
        assert(e2.drop_last() =~= entries.drop_last().update(i, (c, d)));
        assert(e2.last() == entries.last());
        assert forall|a: int, b: int|
            0 <= a < b < entries.drop_last().len() implies (#[trigger] entries.drop_last()[a]).0@
            != (#[trigger] entries.drop_last()[b]).0@ by {
            assert(entries.drop_last()[a] == entries[a]);
            assert(entries.drop_last()[b] == entries[b]);
        }
        assert(entries.drop_last()[i] == entries[i]);
        lemma_entries_map_update(entries.drop_last(), i, c, d);
        assert(entries[i].0@ != entries.last().0@);
        assert(sp_entries_map(entries.drop_last()).insert(c@, d).insert(
            entries.last().0@,
            entries.last().1,
        ) =~= sp_entries_map(entries.drop_last()).insert(entries.last().0@, entries.last().1)
            .insert(c@, d));
    }
}

/// Are two strings the same sequence of characters?
fn str_eq(a: &str, b: &str) -> (r: bool)
    ensures
        r == (a@ == b@),
{
    let n = a.unicode_len();
    if n != b.unicode_len() {
        return false;
    }
    let mut k: usize = 0;
    while k < n
        invariant
            k <= n,
            n == a@.len(),
            n == b@.len(),
            forall|t: int| 0 <= t < k ==> a@[t] == b@[t],
        decreases n - k,
    {
        if a.get_char(k) != b.get_char(k) {
            assert(a@[k as int] != b@[k as int]);
            return false;
        }
        k += 1;
    }
    proof {
        assert(a@ =~= b@);
    }
    true
}

/// Insert one entry, replacing an existing one under the same key: the
/// denoted map gains exactly that binding.
fn insert_message(entries: &mut Vec<(String, EmoteData)>, cmd: String, data: EmoteData)
    requires
        sp_keys_unique(old(entries)@),
    ensures
        sp_keys_unique(final(entries)@),
        sp_entries_map(final(entries)@) == sp_entries_map(old(entries)@).insert(cmd@, data),
{
    let ghost orig = entries@;
    let mut i: usize = 0;
    while i < entries.len()
        invariant
            entries@ == orig,
            orig == old(entries)@,
            sp_keys_unique(orig),
            i <= entries@.len(),
            forall|k: int| 0 <= k < i ==> (#[trigger] entries@[k]).0@ != cmd@,
        decreases entries@.len() - i,
    {
        if str_eq(entries[i].0.as_str(), cmd.as_str()) {
            proof {
                lemma_entries_map_update(entries@, i as int, cmd, data);
            }
            entries.set(i, (cmd, data));
            proof {
                assert forall|a: int, b: int|
                    0 <= a < b < entries@.len() implies (#[trigger] entries@[a]).0@ != (
                #[trigger] entries@[b]).0@ by {
                    if a != i && b != i {
                        assert(orig[a].0@ != orig[b].0@);
                    }
                }
            }
            return ;
        }
        i += 1;
    }
    entries.push((cmd, data));
    proof {
        assert(entries@.drop_last() =~= orig);
        assert forall|a: int, b: int|
            0 <= a < b < entries@.len() implies (#[trigger] entries@[a]).0@ != (
        #[trigger] entries@[b]).0@ by {
            if b == entries@.len() - 1 {
                assert(orig[a].0@ != cmd@);
            } else {
                assert(orig[a].0@ != orig[b].0@);
            }
        }
    }
}

// ---------------------------------------------------------------------------
// Folding raw data into the map.
// ---------------------------------------------------------------------------

/// The emote an input record denotes.
pub open spec fn sp_data_emote(d: LogMessageData) -> EmoteData {
    EmoteData {
        id: d.id,
        name: d.name,
        en: LogMessagePair { targeted: d.en.targeted, untargeted: d.en.untargeted },
        ja: LogMessagePair { targeted: d.ja.targeted, untargeted: d.ja.untargeted },
    }
}

/// Bind an emote under each of its commands, in order.
pub open spec fn sp_cmds_map(
    m: Map<Seq<char>, EmoteData>,
    cmds: Seq<String>,
    d: EmoteData,
) -> Map<Seq<char>, EmoteData>
    decreases cmds.len(),
{
    if cmds.len() == 0 {
        m
    } else {
        sp_cmds_map(m.insert(cmds[0]@, d), cmds.drop_first(), d)
    }
}

/// Fold every record of the data feed into the map, in order.
pub open spec fn sp_data_map(
    m: Map<Seq<char>, EmoteData>,
    data: Seq<LogMessageData>,
) -> Map<Seq<char>, EmoteData>
    decreases data.len(),
{
    if data.len() == 0 {
        m
    } else {
        sp_data_map(sp_cmds_map(m, data[0].commands@, sp_data_emote(data[0])), data.drop_first())
    }
}

/// Bind an emote under one optional alias, skipping empty ones.
pub open spec fn sp_alias_map(
    m: Map<Seq<char>, EmoteData>,
    c: Option<String>,
    d: EmoteData,
) -> Map<Seq<char>, EmoteData> {
    match c {
        Some(cmd) => if cmd@.len() > 0 {
            m.insert(cmd@, d)
        } else {
            m
        },
        None => m,
    }
}

/// Fold one raw remote record into the map: records with any missing field
/// are ignored; a complete one is bound under each nonempty alias.
pub open spec fn sp_xivapi_step(
    m: Map<Seq<char>, EmoteData>,
    r: xivapi::EmoteData,
) -> Map<Seq<char>, EmoteData> {
    match r.log_message_targeted {
        None => m,
        Some(t) => match r.log_message_untargeted {
            None => m,
            Some(u) => match r.text_command {
                None => m,
                Some(tc) => match r.name {
                    None => m,
                    Some(nm) => match r.id {
                        None => m,
                        Some(id) => {
                            let d = EmoteData {
                                id,
                                name: nm,
                                en: LogMessagePair { targeted: t.text_en, untargeted: u.text_en },
                                ja: LogMessagePair { targeted: t.text_ja, untargeted: u.text_ja },
                            };
                            sp_alias_map(
                                sp_alias_map(
                                    sp_alias_map(sp_alias_map(m, tc.alias_en, d), tc.alias_ja, d),
                                    tc.command_en,
                                    d,
                                ),
                                tc.command_ja,
                                d,
                            )
                        },
                    },
                },
            },
        },
    }
}

/// Fold every raw remote record into the map, in order.
pub open spec fn sp_xivapi_map(
    m: Map<Seq<char>, EmoteData>,
    rs: Seq<xivapi::EmoteData>,
) -> Map<Seq<char>, EmoteData>
    decreases rs.len(),
{
    if rs.len() == 0 {
        m
    } else {
        sp_xivapi_map(sp_xivapi_step(m, rs[0]), rs.drop_first())
    }
}

// ---------------------------------------------------------------------------
// The repository.
// ---------------------------------------------------------------------------

/// The store: emote data under every command name that invokes it, plus the
/// query the caller side uses to (re)load the data.
#[derive(Debug)]
pub struct LogMessageRepository {
    messages: MessagesMap,
    query: Vec<(String, String)>,
}

impl View for LogMessageRepository {
    type V = Seq<(String, EmoteData)>;

    closed spec fn view(&self) -> Seq<(String, EmoteData)> {
        self.messages@
    }
}

impl LogMessageRepository {
    /// The stored entries have pairwise distinct keys. Every constructor
    /// establishes this.
    pub open spec fn wf(&self) -> bool {
        sp_keys_unique(self@)
    }

    /// The map the store denotes.
    pub open spec fn as_map(&self) -> Map<Seq<char>, EmoteData> {
        sp_entries_map(self@)
    }

    /// The stored query.
    pub closed spec fn spec_query(&self) -> Seq<(String, String)> {
        self.query@
    }

    /// Build a repository from entries and a query; entries are folded in
    /// order, so a later duplicate key wins, and the result's keys are
    /// distinct.
    pub fn new(messages: MessagesMap, query: Vec<(String, String)>) -> (r: LogMessageRepository)
        ensures
            r.wf(),
            r.as_map() == sp_entries_map(messages@),
            r.spec_query() == query@,
    {
        let ghost input = messages@;
        let mut entries: MessagesMap = Vec::new();
        let mut i: usize = 0;
        proof {
            assert(input.subrange(0, 0) =~= Seq::<(String, EmoteData)>::empty());
        }
        while i < messages.len()
            invariant
                messages@ == input,
                i <= input.len(),
                sp_keys_unique(entries@),
                sp_entries_map(entries@) == sp_entries_map(input.subrange(0, i as int)),
            decreases input.len() - i,
        {
            let (c, d) = (messages[i].0.clone(), messages[i].1.clone());
            insert_message(&mut entries, c, d);
            proof {
                assert(input.subrange(0, i as int + 1).drop_last() =~= input.subrange(0, i as int));
                assert(input.subrange(0, i as int + 1).last() == input[i as int]);
            }
            i += 1;
        }
        proof {
            assert(input.subrange(0, input.len() as int) =~= input);
        }
        LogMessageRepository { messages: entries, query }
    }

    /// Build a repository from the plain data feed: every record's emote is
    /// bound under each of its commands, in order.
    pub fn from_data(data: Vec<LogMessageData>) -> (r: LogMessageRepository)
        ensures
            r.wf(),
            r.as_map() == sp_data_map(Map::empty(), data@),
            r.spec_query().len() == 0,
    {
        let ghost input = data@;
        let mut entries: MessagesMap = Vec::new();
        let mut i: usize = 0;
        proof {
            assert(input.skip(0) =~= input);
        }
        while i < data.len()
            invariant
                data@ == input,
                i <= input.len(),
                sp_keys_unique(entries@),
                sp_data_map(sp_entries_map(entries@), input.skip(i as int)) == sp_data_map(
                    Map::empty(),
                    input,
                ),
            decreases input.len() - i,
        {
            let dd = &data[i];
            let emote = EmoteData {
                id: dd.id,
                name: dd.name.clone(),
                en: LogMessagePair {
                    targeted: dd.en.targeted.clone(),
                    untargeted: dd.en.untargeted.clone(),
                },
                ja: LogMessagePair {
                    targeted: dd.ja.targeted.clone(),
                    untargeted: dd.ja.untargeted.clone(),
                },
            };
            proof {
                assert(emote == sp_data_emote(input[i as int]));
                assert(input.skip(i as int)[0] == input[i as int]);
                assert(input.skip(i as int).drop_first() =~= input.skip(i as int + 1));
                assert(dd.commands@.skip(0) =~= dd.commands@);
            }
            let mut ci: usize = 0;
            while ci < dd.commands.len()
                invariant
                    data@ == input,
                    i < input.len(),
                    dd == &data[i as int],
                    ci <= dd.commands@.len(),
                    emote == sp_data_emote(input[i as int]),
                    sp_keys_unique(entries@),
                    sp_data_map(
                        sp_cmds_map(sp_entries_map(entries@), dd.commands@.skip(ci as int), emote),
                        input.skip(i as int + 1),
                    ) == sp_data_map(Map::empty(), input),
                decreases dd.commands@.len() - ci,
            {
                let cmd = dd.commands[ci].clone();
                proof {
                    assert(dd.commands@.skip(ci as int)[0] == dd.commands@[ci as int]);
                    assert(dd.commands@.skip(ci as int).drop_first() =~= dd.commands@.skip(
                        ci as int + 1,
                    ));
                }
                insert_message(&mut entries, cmd, emote.clone());
                ci += 1;
            }
            proof {
                assert(dd.commands@.skip(dd.commands@.len() as int) =~= Seq::<String>::empty());
            }
            i += 1;
        }
        proof {
            assert(input.skip(input.len() as int) =~= Seq::<LogMessageData>::empty());
        }
        LogMessageRepository { messages: entries, query: Vec::new() }
    }

    /// The query used against the remote data source: snake-case field
    /// names, the needed columns, and the caller's key when one is given.
    pub fn prep_xivapi_query(api_key: Option<String>) -> (q: Vec<(String, String)>)
        ensures
            q@.len() == if api_key is Some {
                3int
            } else {
                2int
            },
            q@[0].0@ == "snake_case"@,
            q@[0].1@ == "1"@,
            q@[1].0@ == "columns"@,
            q@[1].1@ == "LogMessageTargeted,LogMessageUntargeted,Name,TextCommand,ID"@,
            api_key matches Some(k) ==> q@[2].0@ == "private_key"@ && q@[2].1@ == k@,
    {
        let mut query: Vec<(String, String)> = Vec::new();
        query.push((String::from_str("snake_case"), String::from_str("1")));
        query.push(
            (
                String::from_str("columns"),
                String::from_str("LogMessageTargeted,LogMessageUntargeted,Name,TextCommand,ID"),
            ),
        );
        match api_key {
            Some(key) => {
                query.push((String::from_str("private_key"), key));
            },
            None => {},
        }
        query
    }

    /// Fold raw remote records into entries: records with a missing field
    /// are skipped; complete ones are bound under each nonempty alias.
    pub fn parse_xivapi(results: Vec<xivapi::EmoteData>) -> (r: MessagesMap)
        ensures
            sp_keys_unique(r@),
            sp_entries_map(r@) == sp_xivapi_map(Map::empty(), results@),
    {
        let ghost input = results@;
        let mut entries: MessagesMap = Vec::new();
        let mut i: usize = 0;
        proof {
            assert(input.skip(0) =~= input);
        }
        while i < results.len()
            invariant
                results@ == input,
                i <= input.len(),
                sp_keys_unique(entries@),
                sp_xivapi_map(sp_entries_map(entries@), input.skip(i as int)) == sp_xivapi_map(
                    Map::empty(),
                    input,
                ),
            decreases input.len() - i,
        {
            let rr = &results[i];
            proof {
                assert(input.skip(i as int)[0] == input[i as int]);
                assert(input.skip(i as int).drop_first() =~= input.skip(i as int + 1));
            }
            match (&rr.log_message_targeted, &rr.log_message_untargeted, &rr.text_command, &rr.name, &rr.id) {
                (Some(t), Some(u), Some(tc), Some(nm), Some(id)) => {
                    let d = EmoteData {
                        id: *id,
                        name: nm.clone(),
                        en: LogMessagePair {
                            targeted: t.text_en.clone(),
                            untargeted: u.text_en.clone(),
                        },
                        ja: LogMessagePair {
                            targeted: t.text_ja.clone(),
                            untargeted: u.text_ja.clone(),
                        },
                    };
                    insert_alias(&mut entries, &tc.alias_en, &d);
                    insert_alias(&mut entries, &tc.alias_ja, &d);
                    insert_alias(&mut entries, &tc.command_en, &d);
                    insert_alias(&mut entries, &tc.command_ja, &d);
                },
                _ => {},
            }
            i += 1;
        }
        proof {
            assert(input.skip(input.len() as int) =~= Seq::<xivapi::EmoteData>::empty());
        }
        entries
    }

    /// The targeted message text under a command, in the given language.
    pub fn targeted(&self, name: &str, language: Language) -> (r: Result<
        &str,
        LogMessageRepositoryError,
    >)
        requires
            self.wf(),
        ensures
            match r {
                Ok(s) => {
                    &&& self.as_map().dom().contains(name@)
                    &&& s@ == if language is En {
                        self.as_map()[name@].en.targeted@
                    } else {
                        self.as_map()[name@].ja.targeted@
                    }
                },
                Err(e) => {
                    &&& e == LogMessageRepositoryError::NotFound
                    &&& !self.as_map().dom().contains(name@)
                },
            },
    {
        match self.find_entry(name) {
            Some(i) => {
                let data = &self.messages[i].1;
                match language {
                    Language::En => Ok(data.en.targeted.as_str()),
                    Language::Ja => Ok(data.ja.targeted.as_str()),
                }
            },
            None => Err(LogMessageRepositoryError::NotFound),
        }
    }

    /// The untargeted message text under a command, in the given language.
    pub fn untargeted(&self, name: &str, language: Language) -> (r: Result<
        &str,
        LogMessageRepositoryError,
    >)
        requires
            self.wf(),
        ensures
            match r {
                Ok(s) => {
                    &&& self.as_map().dom().contains(name@)
                    &&& s@ == if language is En {
                        self.as_map()[name@].en.untargeted@
                    } else {
                        self.as_map()[name@].ja.untargeted@
                    }
                },
                Err(e) => {
                    &&& e == LogMessageRepositoryError::NotFound
                    &&& !self.as_map().dom().contains(name@)
                },
            },
    {
        match self.find_entry(name) {
            Some(i) => {
                let data = &self.messages[i].1;
                match language {
                    Language::En => Ok(data.en.untargeted.as_str()),
                    Language::Ja => Ok(data.ja.untargeted.as_str()),
                }
            },
            None => Err(LogMessageRepositoryError::NotFound),
        }
    }

    /// The whole emote record under a command.
    pub fn messages(&self, name: &str) -> (r: Result<&EmoteData, LogMessageRepositoryError>)
        requires
            self.wf(),
        ensures
            match r {
                Ok(d) => {
                    &&& self.as_map().dom().contains(name@)
                    &&& *d == self.as_map()[name@]
                },
                Err(e) => {
                    &&& e == LogMessageRepositoryError::NotFound
                    &&& !self.as_map().dom().contains(name@)
                },
            },
    {
        match self.find_entry(name) {
            Some(i) => Ok(&self.messages[i].1),
            None => Err(LogMessageRepositoryError::NotFound),
        }
    }

    /// Every stored emote record, in entry order.
    pub fn all_messages(&self) -> (r: Vec<&EmoteData>)
        ensures
            r@.len() == self@.len(),
            forall|k: int| 0 <= k < r@.len() ==> *r@[k] == self@[k].1,
    {
        let mut out: Vec<&EmoteData> = Vec::new();
        let mut i: usize = 0;
        while i < self.messages.len()
            invariant
                i <= self@.len(),
                out@.len() == i,
                forall|k: int| 0 <= k < i ==> *out@[k] == self@[k].1,
            decreases self@.len() - i,
        {
            out.push(&self.messages[i].1);
            i += 1;
        }
        out
    }

    /// Is any message stored under this command?
    pub fn contains_emote(&self, name: &str) -> (b: bool)
        ensures
            b == self.as_map().dom().contains(name@),
    {
        self.find_entry(name).is_some()
    }

    /// Every stored command name, in entry order.
    pub fn emote_list(&self) -> (r: Vec<String>)
        ensures
            r@.len() == self@.len(),
            forall|k: int| 0 <= k < r@.len() ==> (#[trigger] r@[k])@ == self@[k].0@,
    {
        let mut out: Vec<String> = Vec::new();
        let mut i: usize = 0;
        while i < self.messages.len()
            invariant
                i <= self@.len(),
                out@.len() == i,
                forall|k: int| 0 <= k < i ==> (#[trigger] out@[k])@ == self@[k].0@,
            decreases self@.len() - i,
        {
            out.push(self.messages[i].0.clone());
            i += 1;
        }
        out
    }

    /// Every stored command name, ordered by the id of its emote.
    pub fn emote_list_by_id(&self) -> (r: Vec<String>)
        requires
            self.wf(),
        ensures
            r@.len() == self@.len(),
            forall|k: int| 0 <= k < r@.len() ==> self.as_map().dom().contains((#[trigger] r@[k])@),
            forall|a: int, b: int|
                0 <= a <= b < r@.len() ==> self.as_map()[(#[trigger] r@[a])@].id <= self.as_map()[(
                #[trigger] r@[b])@].id,
            forall|a: int, b: int|
                0 <= a < b < r@.len() ==> (#[trigger] r@[a])@ != (#[trigger] r@[b])@,
    {
        let ghost m = self.as_map();
        let mut rem: Vec<(u32, String)> = Vec::new();
        let mut i: usize = 0;
        while i < self.messages.len()
            invariant
                i <= self@.len(),
                self.wf(),
                m == self.as_map(),
                rem@.len() == i,
                forall|k: int|
                    0 <= k < i ==> (#[trigger] rem@[k]).1@ == self@[k].0@ && rem@[k].0 == self@[
                        k
                    ].1.id,
                forall|k: int|
                    0 <= k < i ==> m.dom().contains((#[trigger] rem@[k]).1@) && m[rem@[k].1@].id
                        == rem@[k].0,
                forall|a: int, b: int|
                    0 <= a < b < i ==> (#[trigger] rem@[a]).1@ != (#[trigger] rem@[b]).1@,
            decreases self@.len() - i,
        {
            proof {
                lemma_entries_map_index(self@, i as int);
                assert forall|k: int| 0 <= k < i implies (#[trigger] rem@[k]).1@ != self@[
                    i as int
                ].0@ by {
                    assert(rem@[k].1@ == self@[k].0@);
                    assert(self@[k].0@ != self@[i as int].0@);
                }
            }
            rem.push((self.messages[i].1.id, self.messages[i].0.clone()));
            i += 1;
        }
        let mut out: Vec<String> = Vec::new();
        while rem.len() > 0
            invariant
                self.wf(),
                m == self.as_map(),
                out@.len() + rem@.len() == self@.len(),
                forall|k: int|
                    0 <= k < rem@.len() ==> m.dom().contains((#[trigger] rem@[k]).1@) && m[rem@[
                        k
                    ].1@].id == rem@[k].0,
                forall|a: int, b: int|
                    0 <= a < b < rem@.len() ==> (#[trigger] rem@[a]).1@ != (#[trigger] rem@[b]).1@,
                forall|k: int| 0 <= k < out@.len() ==> m.dom().contains((#[trigger] out@[k])@),
                forall|a: int, b: int|
                    0 <= a <= b < out@.len() ==> m[(#[trigger] out@[a])@].id <= m[(
                    #[trigger] out@[b])@].id,
                forall|a: int, b: int|
                    0 <= a < b < out@.len() ==> (#[trigger] out@[a])@ != (#[trigger] out@[b])@,
                forall|a: int, k: int|
                    0 <= a < out@.len() && 0 <= k < rem@.len() ==> m[(#[trigger] out@[a])@].id <= (
                    #[trigger] rem@[k]).0,
                forall|a: int, k: int|
                    0 <= a < out@.len() && 0 <= k < rem@.len() ==> (#[trigger] out@[a])@ != (
                    #[trigger] rem@[k]).1@,
            decreases rem@.len(),
        {
            let mut best: usize = 0;
            let mut j: usize = 1;
            while j < rem.len()
                invariant
                    best < j <= rem@.len(),
                    forall|k: int| 0 <= k < j ==> (#[trigger] rem@[k]).0 >= rem@[best as int].0,
                decreases rem@.len() - j,
            {
                if rem[j].0 < rem[best].0 {
                    best = j;
                }
                j += 1;
            }
            let ghost rem_old = rem@;
            let picked = rem.remove(best);
            proof {
                assert(rem@ =~= rem_old.subrange(0, best as int) + rem_old.subrange(
                    best as int + 1,
                    rem_old.len() as int,
                ));
                assert forall|k: int|
                    0 <= k < rem@.len() implies exists|t: int|
                    0 <= t < rem_old.len() && t != best && rem_old[t] == (#[trigger] rem@[k]) by {
                    if k < best {
                        assert(rem_old[k] == rem@[k]);
                    } else {
                        assert(rem_old[k + 1] == rem@[k]);
                    }
                }
            }
            out.push(picked.1);
            proof {
                assert forall|a: int, k: int|
                    0 <= a < out@.len() && 0 <= k < rem@.len() implies m[(
                #[trigger] out@[a])@].id <= (#[trigger] rem@[k]).0 by {
                    let t = choose|t: int|
                        0 <= t < rem_old.len() && t != best && rem_old[t] == rem@[k];
                    if a < out@.len() - 1 {
                        assert(m[out@[a]@].id <= rem_old[best as int].0);
                        assert(rem_old[t].0 >= rem_old[best as int].0);
                    } else {
                        assert(out@[a] == picked.1);
                        assert(m[picked.1@].id == picked.0);
                        assert(rem_old[t].0 >= rem_old[best as int].0);
                    }
                }
                assert forall|a: int, k: int|
                    0 <= a < out@.len() && 0 <= k < rem@.len() implies (#[trigger] out@[a])@ != (
                #[trigger] rem@[k]).1@ by {
                    let t = choose|t: int|
                        0 <= t < rem_old.len() && t != best && rem_old[t] == rem@[k];
                    if a == out@.len() - 1 {
                        assert(out@[a] == picked.1);
                        assert(rem_old[best as int].1@ != rem_old[t].1@);
                    }
                }
            }
        }
        out
    }

    /// The id of the emote stored under a command, when one is.
    pub fn find_emote_id(&self, name: &str) -> (r: Option<u32>)
        requires
            self.wf(),
        ensures
            match r {
                Some(id) => {
                    &&& self.as_map().dom().contains(name@)
                    &&& self.as_map()[name@].id == id
                },
                None => !self.as_map().dom().contains(name@),
            },
    {
        match self.find_entry(name) {
            Some(i) => Some(self.messages[i].1.id),
            None => None,
        }
    }

    /// The stored entries themselves.
    pub fn messages_map(&self) -> (r: &MessagesMap)
        ensures
            r@ == self@,
    {
        &self.messages
    }

    /// Replace the stored query.
    pub fn set_xivapi_query(&mut self, query: Vec<(String, String)>)
        ensures
            final(self)@ == old(self)@,
            final(self).spec_query() == query@,
    {
        self.query = query;
    }

    /// The stored query, for the caller side that loads pages.
    pub fn xivapi_query(&self) -> (q: &Vec<(String, String)>)
        ensures
            q@ == self.spec_query(),
    {
        &self.query
    }

    /// The index of the entry holding `name`, when one does.
    fn find_entry(&self, name: &str) -> (r: Option<usize>)
        ensures
            match r {
                Some(i) => {
                    &&& i < self@.len()
                    &&& self@[i as int].0@ == name@
                    &&& self.as_map().dom().contains(name@)
                    &&& self.wf() ==> self.as_map()[name@] == self@[i as int].1
                },
                None => !self.as_map().dom().contains(name@),
            },
    {
        let mut i: usize = 0;
        while i < self.messages.len()
            invariant
                i <= self@.len(),
                forall|k: int| 0 <= k < i ==> (#[trigger] self@[k]).0@ != name@,
            decreases self@.len() - i,
        {
            if str_eq(self.messages[i].0.as_str(), name) {
                proof {
                    lemma_entries_map_dom(self@, name@);
                    if self.wf() {
                        lemma_entries_map_index(self@, i as int);
                    }
                }
                return Some(i);
            }
            i += 1;
        }
        proof {
            lemma_entries_map_dom(self@, name@);
        }
        None
    }
}

/// Insert an optional alias binding, skipping missing and empty aliases.
fn insert_alias(entries: &mut Vec<(String, EmoteData)>, c: &Option<String>, d: &EmoteData)
    requires
        sp_keys_unique(old(entries)@),
    ensures
        sp_keys_unique(final(entries)@),
        sp_entries_map(final(entries)@) == sp_alias_map(sp_entries_map(old(entries)@), *c, *d),
{
    match c {
        Some(cmd) => {
            if !cmd.as_str().is_empty() {
                insert_message(entries, cmd.clone(), d.clone());
            }
        },
        None => {},
    }
}

} // verus!
