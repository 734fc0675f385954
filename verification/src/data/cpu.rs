//! The bot's saved state: which links have been downloaded and under
//! which file name, and the users' ratings; and the steps that bring a
//! catalogue's new links into that state.

use vstd::prelude::*;
use crate::seq_facts::lemma_take_step;
use crate::data::user;
use crate::error::Error;

verus! {

/// The file name of each downloaded link, in the order they were saved.
pub open spec fn pairs_map(s: Seq<(String, String)>) -> Map<Seq<char>, Seq<char>>
    decreases s.len(),
{
    if s.len() == 0 {
        Map::empty()
    } else {
        pairs_map(s.drop_last()).insert(s.last().0@, s.last().1@)
    }
}

/// No link occurs twice.
pub open spec fn distinct_links(s: Seq<(String, String)>) -> bool {
    forall|i: int, j: int| 0 <= i < j < s.len() ==> s[i].0@ != s[j].0@
}

proof fn lemma_pairs_map_dom(s: Seq<(String, String)>, k: Seq<char>)
    ensures
        pairs_map(s).contains_key(k) <==> exists|i: int| 0 <= i < s.len() && s[i].0@ == k,
        pairs_map(s).dom().finite(),
    decreases s.len(),
{
    if s.len() > 0 {
        lemma_pairs_map_dom(s.drop_last(), k);
        if pairs_map(s.drop_last()).contains_key(k) {
            let i = choose|i: int| 0 <= i < s.drop_last().len() && s.drop_last()[i].0@ == k;
            assert(s[i].0@ == k);
        }
        if exists|i: int| 0 <= i < s.len() && s[i].0@ == k {
            let i = choose|i: int| 0 <= i < s.len() && s[i].0@ == k;
            if i < s.len() - 1 {
                assert(s.drop_last()[i].0@ == k);
            }
        }
    }
}

proof fn lemma_pairs_map_value(s: Seq<(String, String)>, i: int)
    requires
        distinct_links(s),
        0 <= i < s.len(),
    ensures
        pairs_map(s).contains_key(s[i].0@),
        pairs_map(s)[s[i].0@] == s[i].1@,
    decreases s.len(),
{
    if i < s.len() - 1 {
        lemma_pairs_map_value(s.drop_last(), i);
        assert(s.drop_last()[i] == s[i]);
    }
}

proof fn lemma_pairs_map_update(s: Seq<(String, String)>, i: int, p: (String, String))
    requires
        distinct_links(s),
        0 <= i < s.len(),
        s[i].0@ == p.0@,
    ensures
        pairs_map(s.update(i, p)) == pairs_map(s).insert(p.0@, p.1@),
    decreases s.len(),
{
    let t = s.update(i, p);
    if i == s.len() - 1 {
        assert(t.drop_last() =~= s.drop_last());
        assert(pairs_map(t) =~= pairs_map(s).insert(p.0@, p.1@));
    } else {
        assert(t.drop_last() =~= s.drop_last().update(i, p));
        lemma_pairs_map_update(s.drop_last(), i, p);
        assert(s.last().0@ != p.0@);
        assert(pairs_map(t) =~= pairs_map(s).insert(p.0@, p.1@));
    }
}

/// `names` lists the values of `m`, one per key, in some order of the keys.
pub open spec fn lists_values(names: Seq<Seq<char>>, m: Map<Seq<char>, Seq<char>>) -> bool {
    exists|links: Seq<Seq<char>>|
        {
            &&& links.no_duplicates()
            &&& links.to_set() == m.dom()
            &&& links.len() == names.len()
            &&& forall|i: int| 0 <= i < links.len() ==> #[trigger] names[i] == m[links[i]]
        }
}

/// The links that have been downloaded, each with the file its picture
/// was saved to.
#[derive(Debug)]
pub struct FileIndex {
    entries: Vec<(String, String)>,
}

impl FileIndex {
    #[verifier::type_invariant]
    spec fn each_link_once(self) -> bool {
        distinct_links(self.entries@)
    }
}

impl Clone for FileIndex {
    /// A copy with the same links and file names, in the same order.
    fn clone(&self) -> (copy: Self)
        ensures
            copy@ == self@,
    {
        proof { use_type_invariant(self); }
        let mut entries: Vec<(String, String)> = Vec::new();
        let mut i: usize = 0;
        while i < self.entries.len()
            invariant
                i <= self.entries@.len(),
                entries@.len() == i,
                forall|j: int| 0 <= j < i ==> #[trigger] entries@[j].0@ == self.entries@[j].0@
                    && entries@[j].1@ == self.entries@[j].1@,
            decreases self.entries@.len() - i,
        {
            let e = (self.entries[i].0.clone(), self.entries[i].1.clone());
            entries.push(e);
            i = i + 1;
        }
        proof {
            assert forall|a: int, b: int| 0 <= a < b < entries@.len() implies entries@[a].0@ != entries@[b].0@ by {
                assert(entries@[a].0@ == self.entries@[a].0@);
                assert(entries@[b].0@ == self.entries@[b].0@);
            }
            lemma_pairs_map_same_views(entries@, self.entries@);
        }
        FileIndex { entries }
    }
}

proof fn lemma_pairs_map_same_views(s: Seq<(String, String)>, t: Seq<(String, String)>)
    requires
        s.len() == t.len(),
        forall|j: int| 0 <= j < s.len() ==> #[trigger] s[j].0@ == t[j].0@ && s[j].1@ == t[j].1@,
    ensures
        pairs_map(s) == pairs_map(t),
    decreases s.len(),
{
    if s.len() > 0 {
        assert forall|j: int| 0 <= j < s.drop_last().len() implies #[trigger] s.drop_last()[j].0@ == t.drop_last()[j].0@
            && s.drop_last()[j].1@ == t.drop_last()[j].1@ by {
            assert(s.drop_last()[j] == s[j]);
            assert(t.drop_last()[j] == t[j]);
        }
        lemma_pairs_map_same_views(s.drop_last(), t.drop_last());
        assert(s.last().0@ == t.last().0@ && s.last().1@ == t.last().1@);
    }
}

impl View for FileIndex {
    type V = Map<Seq<char>, Seq<char>>;

    closed spec fn view(&self) -> Map<Seq<char>, Seq<char>> {
        pairs_map(self.entries@)
    }
}

impl FileIndex {
    /// An index with no links.
    pub fn new() -> (index: FileIndex)
        ensures
            index@ == Map::<Seq<char>, Seq<char>>::empty(),
    {
        FileIndex { entries: Vec::new() }
    }

    /// Where `link` stands in the entries, if anywhere.
    fn position(&self, link: &String) -> (pos: Option<usize>)
        ensures
            match pos {
                Some(i) => i < self.entries@.len() && self.entries@[i as int].0@ == link@,
                None => forall|i: int| 0 <= i < self.entries@.len() ==> self.entries@[i].0@ != link@,
            },
    {
        let mut i: usize = 0;
        while i < self.entries.len()
            invariant
                i <= self.entries@.len(),
                forall|j: int| 0 <= j < i ==> self.entries@[j].0@ != link@,
            decreases self.entries@.len() - i,
        {
            if self.entries[i].0 == *link {
                return Some(i);
            }
            i = i + 1;
        }
        None
    }

    /// Whether `link` has been downloaded.
    pub fn contains_key(&self, link: &String) -> (found: bool)
        ensures
            found == self@.contains_key(link@),
    {
        proof { lemma_pairs_map_dom(self.entries@, link@); }
        match self.position(link) {
            Some(_) => true,
            None => false,
        }
    }

    /// Records that `link` was saved to `file`, in place of what was
    /// recorded for it before.
    pub fn insert(&mut self, link: String, file: String)
        ensures
            final(self)@ == old(self)@.insert(link@, file@),
    {
        proof { use_type_invariant(&*self); }
        let pos = self.position(&link);
        let mut entries: Vec<(String, String)> = Vec::new();
        std::mem::swap(&mut entries, &mut self.entries);
        let ghost before = entries@;
        let ghost key = link@;
        let ghost val = file@;
        match pos {
            Some(i) => {
                entries.set(i, (link, file));
                proof {
                    lemma_pairs_map_update(before, i as int, entries@[i as int]);
                    assert(entries@ == before.update(i as int, entries@[i as int]));
                }
            },
            None => {
                entries.push((link, file));
                proof {
                    assert(entries@.drop_last() =~= before);
                }
            },
        }
        self.entries = entries;
    }

    /// The file names of all downloaded links, one per link.
    pub fn file_names(&self) -> (names: Vec<String>)
        ensures
            lists_values(string_views(names@), self@),
    {
        proof { use_type_invariant(self); }
        let mut names: Vec<String> = Vec::new();
        let mut i: usize = 0;
        while i < self.entries.len()
            invariant
                i <= self.entries@.len(),
                names@.len() == i,
                forall|j: int| 0 <= j < i ==> #[trigger] names@[j]@ == self.entries@[j].1@,
            decreases self.entries@.len() - i,
        {
            names.push(self.entries[i].1.clone());
            i = i + 1;
        }
        let ghost links = self.entries@.map_values(|e: (String, String)| e.0@);
        proof {
            assert forall|a: int, b: int| 0 <= a < links.len() && 0 <= b < links.len() && a != b implies links[a] != links[b] by {
                if a < b {
                    assert(self.entries@[a].0@ != self.entries@[b].0@);
                } else {
                    assert(self.entries@[b].0@ != self.entries@[a].0@);
                }
            }
            assert forall|k: Seq<char>| links.to_set().contains(k) <==> self@.dom().contains(k) by {
                lemma_pairs_map_dom(self.entries@, k);
                if links.to_set().contains(k) {
                    let j = choose|j: int| 0 <= j < links.len() && links[j] == k;
                    assert(self.entries@[j].0@ == k);
                }
                if self@.dom().contains(k) {
                    let j = choose|j: int| 0 <= j < self.entries@.len() && self.entries@[j].0@ == k;
                    assert(links[j] == k);
                }
            }
            assert(links.to_set() =~= self@.dom());
            assert forall|i: int| 0 <= i < links.len() implies #[trigger] string_views(names@)[i] == self@[links[i]] by {
                lemma_pairs_map_value(self.entries@, i);
            }
            assert(string_views(names@).len() == links.len());
        }
        names
    }
}

/// A user's rating of one picture of a character.
#[derive(Debug, Clone, Default)]
pub struct Rating {
    character: String,
    filename: String,
    score: u8,
}

/// A character of a show, by name.
#[derive(Debug, Clone)]
pub struct Character {
    name: String,
    anime: String,
}

/// A user, the characters they know and the ratings they gave.
#[derive(Debug, Clone, Default)]
pub struct Users {
    username: String,
    characters: Vec<Character>,
    ratings: Vec<Rating>,
}

/// The saved state: the downloaded links and the users.
#[derive(Debug, Clone)]
pub struct Data {
    previous_files: FileIndex,
    users: Users,
}

impl View for Data {
    type V = Map<Seq<char>, Seq<char>>;

    /// The downloaded links, each with its file name.
    closed spec fn view(&self) -> Map<Seq<char>, Seq<char>> {
        self.previous_files@
    }
}

impl Default for Data {
    fn default() -> (d: Data)
        ensures
            d@ == Map::<Seq<char>, Seq<char>>::empty(),
    {
        Data {
            previous_files: FileIndex::new(),
            users: Users { username: String::new(), characters: Vec::new(), ratings: Vec::new() },
        }
    }
}

impl core::ops::Deref for Data {
    type Target = FileIndex;

    fn deref(&self) -> (files: &FileIndex)
        ensures
            files@ == self@,
    {
        &self.previous_files
    }
}

/// The names of the shows of a catalogue, in order.
pub open spec fn show_names_of(shows: Seq<user::Anime>) -> Seq<Seq<char>> {
    shows.map_values(|a: user::Anime| a.name@)
}

/// The names of the characters of some shows, show after show.
pub open spec fn character_names_of(shows: Seq<user::Anime>) -> Seq<Seq<char>>
    decreases shows.len(),
{
    if shows.len() == 0 {
        seq![]
    } else {
        character_names_of(shows.drop_last()) + shows.last().characters@.map_values(|c: user::Character| c.name@)
    }
}

/// The links of some characters, character after character.
pub open spec fn character_links_of(cs: Seq<user::Character>) -> Seq<Seq<char>>
    decreases cs.len(),
{
    if cs.len() == 0 {
        seq![]
    } else {
        character_links_of(cs.drop_last()) + cs.last().links@.map_values(|l: String| l@)
    }
}

/// The links of all characters of some shows, show after show.
pub open spec fn links_of(shows: Seq<user::Anime>) -> Seq<Seq<char>>
    decreases shows.len(),
{
    if shows.len() == 0 {
        seq![]
    } else {
        links_of(shows.drop_last()) + character_links_of(shows.last().characters@)
    }
}

/// The views of a list of strings.
pub open spec fn string_views(s: Seq<String>) -> Seq<Seq<char>> {
    s.map_values(|x: String| x@)
}

proof fn lemma_push_string(s: Seq<String>, x: String)
    ensures
        string_views(s.push(x)) == string_views(s).push(x@),
{
    assert(string_views(s.push(x)) =~= string_views(s).push(x@));
}


/// The names of the shows of a catalogue, in order.
pub fn show_names(ser_data: &user::Data) -> (names: Vec<String>)
    ensures
        string_views(names@) == show_names_of(ser_data.shows@),
{
    let mut names: Vec<String> = Vec::new();
    let mut i: usize = 0;
    while i < ser_data.shows.len()
        invariant
            i <= ser_data.shows@.len(),
            string_views(names@) == show_names_of(ser_data.shows@.take(i as int)),
        decreases ser_data.shows@.len() - i,
    {
        let name = ser_data.shows[i].name.clone();
        proof {
            lemma_push_string(names@, name);
            assert(show_names_of(ser_data.shows@.take(i + 1)) =~= show_names_of(ser_data.shows@.take(i as int)).push(name@));
        }
        names.push(name);
        i = i + 1;
    }
    proof { assert(ser_data.shows@.take(i as int) =~= ser_data.shows@); }
    names
}

/// The names of all characters of a catalogue, show after show.
pub fn character_names(ser_data: &user::Data) -> (names: Vec<String>)
    ensures
        string_views(names@) == character_names_of(ser_data.shows@),
{
    let mut names: Vec<String> = Vec::new();
    let mut i: usize = 0;
    while i < ser_data.shows.len()
        invariant
            i <= ser_data.shows@.len(),
            string_views(names@) == character_names_of(ser_data.shows@.take(i as int)),
        decreases ser_data.shows@.len() - i,
    {
        let show = &ser_data.shows[i];
        let ghost before = string_views(names@);
        let mut j: usize = 0;
        while j < show.characters.len()
            invariant
                j <= show.characters@.len(),
                string_views(names@) == before + show.characters@.take(j as int).map_values(|c: user::Character| c.name@),
            decreases show.characters@.len() - j,
        {
            let name = show.characters[j].name.clone();
            proof {
                lemma_push_string(names@, name);
                assert(show.characters@.take(j + 1).map_values(|c: user::Character| c.name@)
                    =~= show.characters@.take(j as int).map_values(|c: user::Character| c.name@).push(name@));
            }
            names.push(name);
            j = j + 1;
        }
        proof {
            assert(show.characters@.take(j as int) =~= show.characters@);
            lemma_take_step(ser_data.shows@, i as int);
        }
        i = i + 1;
    }
    proof { assert(ser_data.shows@.take(i as int) =~= ser_data.shows@); }
    names
}

/// Every link of a catalogue, character after character, show after show.
pub fn all_links(ser_data: &user::Data) -> (links: Vec<String>)
    ensures
        string_views(links@) == links_of(ser_data.shows@),
{
    let mut links: Vec<String> = Vec::new();
    let mut i: usize = 0;
    while i < ser_data.shows.len()
        invariant
            i <= ser_data.shows@.len(),
            string_views(links@) == links_of(ser_data.shows@.take(i as int)),
        decreases ser_data.shows@.len() - i,
    {
        let show = &ser_data.shows[i];
        let ghost before = string_views(links@);
        let mut j: usize = 0;
        while j < show.characters.len()
            invariant
                j <= show.characters@.len(),
                string_views(links@) == before + character_links_of(show.characters@.take(j as int)),
            decreases show.characters@.len() - j,
        {
            let character = &show.characters[j];
            let ghost before_character = string_views(links@);
            let mut k: usize = 0;
            while k < character.links.len()
                invariant
                    k <= character.links@.len(),
                    string_views(links@) == before_character + string_views(character.links@.take(k as int)),
                decreases character.links@.len() - k,
            {
                let link = character.links[k].clone();
                proof {
                    lemma_push_string(links@, link);
                    lemma_take_step(character.links@, k as int);
                    assert(string_views(character.links@.take(k + 1))
                        =~= string_views(character.links@.take(k as int)).push(link@));
                }
                links.push(link);
                k = k + 1;
            }
            proof {
                assert(character.links@.take(k as int) =~= character.links@);
                lemma_take_step(show.characters@, j as int);
                assert(string_views(character.links@) =~= character.links@.map_values(|l: String| l@));
                assert(string_views(links@) =~= before + character_links_of(show.characters@.take(j + 1)));
            }
            j = j + 1;
        }
        proof {
            assert(show.characters@.take(j as int) =~= show.characters@);
            lemma_take_step(ser_data.shows@, i as int);
            assert(string_views(links@) =~= links_of(ser_data.shows@.take(i + 1)));
        }
        i = i + 1;
    }
    proof { assert(ser_data.shows@.take(i as int) =~= ser_data.shows@); }
    links
}

/// The links of `links` that `saved` does not hold yet, in order.
pub open spec fn unsaved_links(links: Seq<Seq<char>>, saved: Map<Seq<char>, Seq<char>>) -> Seq<Seq<char>>
    decreases links.len(),
{
    if links.len() == 0 {
        seq![]
    } else if saved.contains_key(links.last()) {
        unsaved_links(links.drop_last(), saved)
    } else {
        unsaved_links(links.drop_last(), saved).push(links.last())
    }
}

/// The outcome of one download: the link, and the file name it was saved
/// under or the error that stopped it.
pub type Fetched = (String, Result<String, Error>);

/// What the saved links become once each successful download of
/// `fetched` is recorded, in order; failed downloads change nothing.
pub open spec fn with_downloads(saved: Map<Seq<char>, Seq<char>>, fetched: Seq<Fetched>) -> Map<Seq<char>, Seq<char>>
    decreases fetched.len(),
{
    if fetched.len() == 0 {
        saved
    } else {
        let before = with_downloads(saved, fetched.drop_last());
        match fetched.last().1 {
            Ok(file) => before.insert(fetched.last().0@, file@),
            Err(_) => before,
        }
    }
}

impl Data {
    /// The links of `links` that have not been downloaded yet, in order.
    pub fn links_to_fetch(&self, links: &Vec<String>) -> (fresh: Vec<String>)
        ensures
            string_views(fresh@) == unsaved_links(string_views(links@), self@),
    {
        let mut fresh: Vec<String> = Vec::new();
        let mut i: usize = 0;
        while i < links.len()
            invariant
                i <= links@.len(),
                string_views(fresh@) == unsaved_links(string_views(links@.take(i as int)), self@),
            decreases links@.len() - i,
        {
            proof {
                lemma_take_step(links@, i as int);
                assert(string_views(links@.take(i + 1)).drop_last() =~= string_views(links@.take(i as int)));
            }
            if !self.previous_files.contains_key(&links[i]) {
                let link = links[i].clone();
                proof { lemma_push_string(fresh@, link); }
                fresh.push(link);
            }
            i = i + 1;
        }
        proof { assert(links@.take(i as int) =~= links@); }
        fresh
    }

    /// Records the file name of each successful download, in order.
    pub fn record_downloads(&mut self, fetched: Vec<Fetched>)
        ensures
            final(self)@ == with_downloads(old(self)@, fetched@),
    {
        let ghost start = self@;
        let mut i: usize = 0;
        while i < fetched.len()
            invariant
                i <= fetched@.len(),
                self@ == with_downloads(start, fetched@.take(i as int)),
            decreases fetched@.len() - i,
        {
            proof { lemma_take_step(fetched@, i as int); }
            let (link, outcome) = &fetched[i];
            match outcome {
                Ok(file) => {
                    self.previous_files.insert(link.clone(), file.clone());
                },
                Err(_) => {},
            }
            i = i + 1;
        }
        proof { assert(fetched@.take(i as int) =~= fetched@); }
    }

    /// The file names of all downloaded links, one per link.
    pub fn file_names(&self) -> (names: Vec<String>)
        ensures
            lists_values(string_views(names@), self@),
    {
        self.previous_files.file_names()
    }
}

/// A rating that borrows its names from the saved data.
#[derive(Debug, Clone)]
pub struct RefRating<'a> {
    character: &'a String,
    filename: &'a String,
    score: u8,
}

/// A character whose names are borrowed from the saved data.
#[derive(Debug, Clone)]
pub struct RefCharacter<'a> {
    name: &'a String,
    anime: &'a String,
}

/// A user whose ratings borrow from the saved data.
#[derive(Debug, Clone)]
pub struct RefUsers<'a> {
    username: String,
    ratings: Vec<RefRating<'a>>,
}

/// The saved data arranged for display: the downloaded links, their
/// file names, the names of the shows and characters, and the users.
#[derive(Debug, Clone)]
pub struct RefData<'a> {
    previous_files: FileIndex,
    file_names: Vec<String>,
    anime_names: Vec<String>,
    character_names: Vec<String>,
    characters: Vec<RefCharacter<'a>>,
    users: Vec<RefUsers<'a>>,
}

/// What a `RefData` holds.
pub struct RefDataView {
    pub previous_files: Map<Seq<char>, Seq<char>>,
    pub file_names: Seq<Seq<char>>,
    pub anime_names: Seq<Seq<char>>,
    pub character_names: Seq<Seq<char>>,
    /// Each character's name and show.
    pub characters: Seq<(Seq<char>, Seq<char>)>,
    /// Each user's name and ratings (character, file name, score).
    pub users: Seq<(Seq<char>, Seq<(Seq<char>, Seq<char>, u8)>)>,
}

impl<'a> View for RefData<'a> {
    type V = RefDataView;

    closed spec fn view(&self) -> RefDataView {
        RefDataView {
            previous_files: self.previous_files@,
            file_names: self.file_names@.map_values(|f: String| f@),
            anime_names: self.anime_names@.map_values(|a: String| a@),
            character_names: self.character_names@.map_values(|c: String| c@),
            characters: self.characters@.map_values(|c: RefCharacter<'a>| (c.name@, c.anime@)),
            users: self.users@.map_values(
                |u: RefUsers<'a>|
                    (u.username@, u.ratings@.map_values(|r: RefRating<'a>| (r.character@, r.filename@, r.score))),
            ),
        }
    }
}

impl<'a> RefData<'a> {
    /// Arranged data with nothing in it.
    pub fn new() -> (d: Self)
        ensures
            d@.previous_files == Map::<Seq<char>, Seq<char>>::empty(),
            d@.file_names.len() == 0,
            d@.anime_names.len() == 0,
            d@.character_names.len() == 0,
            d@.characters.len() == 0,
            d@.users.len() == 0,
    {
        Self {
            previous_files: FileIndex::new(),
            file_names: vec![],
            characters: vec![],
            users: vec![],
            anime_names: vec![],
            character_names: vec![],
        }
    }
}

impl<'a> RefData<'a> {
    /// The downloaded links, each with its file name.
    pub fn previous_files(&self) -> (files: &FileIndex)
        ensures
            files@ == self@.previous_files,
    {
        &self.previous_files
    }

    /// The file names of the downloaded links, one per link.
    pub fn file_names(&self) -> (names: &Vec<String>)
        ensures
            string_views(names@) == self@.file_names,
    {
        proof { assert(string_views(self.file_names@) =~= self@.file_names); }
        &self.file_names
    }
}

impl<'a> Data {
    /// Brings the catalogue's new links into the saved data and arranges
    /// it for display. `fetched` holds the outcome of downloading, in order,
    /// each catalogue link that is not saved yet (`links_to_fetch` on
    /// `all_links(&ser_data)` picks them); successful downloads are
    /// recorded, failed ones left out. The result holds the updated links
    /// and their file names; the names of shows and characters, the
    /// characters and the users are left empty.
    pub fn to_ref(self, ser_data: user::Data, fetched: Vec<Fetched>) -> (r: Result<RefData<'a>, Error>)
        requires
            fetched@.map_values(|f: Fetched| f.0@) == unsaved_links(links_of(ser_data.shows@), self@),
        ensures
            r matches Ok(d) && {
                &&& d@.previous_files == with_downloads(self@, fetched@)
                &&& self@.submap_of(d@.previous_files)
                &&& lists_values(d@.file_names, d@.previous_files)
                &&& d@.anime_names.len() == 0
                &&& d@.character_names.len() == 0
                &&& d@.characters.len() == 0
                &&& d@.users.len() == 0
            },
    {
        let ghost saved = self@;
        let ghost links = links_of(ser_data.shows@);
        proof {
            assert forall|i: int| 0 <= i < fetched@.len() implies unsaved_links(links, saved).contains(#[trigger] fetched@[i].0@) by {
                assert(fetched@.map_values(|f: Fetched| f.0@)[i] == fetched@[i].0@);
            }
            law_fetching_new_links_keeps_saved_files(saved, links, fetched@);
        }
        let mut data = self;
        data.record_downloads(fetched);
        let file_names = data.file_names();
        let d = RefData {
            previous_files: data.previous_files,
            file_names,
            anime_names: vec![],
            character_names: vec![],
            characters: vec![],
            users: vec![],
        };
        proof {
            assert(d@.file_names =~= string_views(file_names@));
        }
        Ok(d)
    }
}

proof fn lemma_unsaved_are_unsaved(links: Seq<Seq<char>>, saved: Map<Seq<char>, Seq<char>>, k: Seq<char>)
    ensures
        unsaved_links(links, saved).contains(k) ==> !saved.contains_key(k) && links.contains(k),
    decreases links.len(),
{
    if links.len() > 0 {
        lemma_unsaved_are_unsaved(links.drop_last(), saved, k);
        if unsaved_links(links.drop_last(), saved).contains(k) {
            let i = choose|i: int| 0 <= i < links.drop_last().len() && links.drop_last()[i] == k;
            assert(links[i] == k);
        }
    }
}

/// Downloading only links that were not saved yet changes no saved file:
/// every link saved before keeps its file name.
pub proof fn law_fetching_new_links_keeps_saved_files(
    saved: Map<Seq<char>, Seq<char>>,
    links: Seq<Seq<char>>,
    fetched: Seq<Fetched>,
)
    requires
        forall|i: int| 0 <= i < fetched.len() ==> unsaved_links(links, saved).contains(#[trigger] fetched[i].0@),
    ensures
        saved.submap_of(with_downloads(saved, fetched)),
    decreases fetched.len(),
{
    if fetched.len() > 0 {
        law_fetching_new_links_keeps_saved_files(saved, links, fetched.drop_last());
        lemma_unsaved_are_unsaved(links, saved, fetched.last().0@);
        assert(fetched.last() == fetched[fetched.len() - 1]);
    }
}

/// A link whose last download succeeded is saved under the file name that
/// download gave.
pub proof fn law_downloaded_link_is_saved(saved: Map<Seq<char>, Seq<char>>, fetched: Seq<Fetched>, i: int, file: String)
    requires
        0 <= i < fetched.len(),
        fetched[i].1 == Ok::<String, Error>(file),
        forall|j: int| i < j < fetched.len() ==> #[trigger] fetched[j].0@ != fetched[i].0@,
    ensures
        with_downloads(saved, fetched).contains_key(fetched[i].0@),
        with_downloads(saved, fetched)[fetched[i].0@] == file@,
    decreases fetched.len(),
{
    if i < fetched.len() - 1 {
        assert forall|j: int| i < j < fetched.drop_last().len() implies #[trigger] fetched.drop_last()[j].0@ != fetched.drop_last()[i].0@ by {
            assert(fetched.drop_last()[j] == fetched[j]);
        }
        law_downloaded_link_is_saved(saved, fetched.drop_last(), i, file);
        assert(fetched.last().0@ != fetched[i].0@);
    }
}

/// A link is picked for download exactly when the catalogue holds it and
/// it is not saved yet; one more link is picked, at the end, exactly when
/// it is not saved; with nothing saved, every link is picked, in order.
pub proof fn law_unsaved_links_are_exactly_the_new_ones(
    links: Seq<Seq<char>>,
    saved: Map<Seq<char>, Seq<char>>,
    k: Seq<char>,
    l: Seq<char>,
)
    ensures
        unsaved_links(links, saved).contains(k) <==> (links.contains(k) && !saved.contains_key(k)),
        unsaved_links(links.push(l), saved) == if saved.contains_key(l) {
            unsaved_links(links, saved)
        } else {
            unsaved_links(links, saved).push(l)
        },
        unsaved_links(links, Map::<Seq<char>, Seq<char>>::empty()) == links,
    decreases links.len(),
{
    lemma_unsaved_are_unsaved(links, saved, k);
    lemma_new_links_are_unsaved(links, saved, k);
    assert(links.push(l).drop_last() =~= links);
    lemma_nothing_saved(links);
}

proof fn lemma_new_links_are_unsaved(links: Seq<Seq<char>>, saved: Map<Seq<char>, Seq<char>>, k: Seq<char>)
    ensures
        links.contains(k) && !saved.contains_key(k) ==> unsaved_links(links, saved).contains(k),
    decreases links.len(),
{
    if links.len() > 0 && links.contains(k) && !saved.contains_key(k) {
        let front = unsaved_links(links.drop_last(), saved);
        if links.last() == k {
            assert(unsaved_links(links, saved) == front.push(k));
            assert(front.push(k)[front.len() as int] == k);
        } else {
            let i = choose|i: int| 0 <= i < links.len() && links[i] == k;
            assert(i < links.len() - 1);
            assert(links.drop_last()[i] == k);
            lemma_new_links_are_unsaved(links.drop_last(), saved, k);
            let j = choose|j: int| 0 <= j < front.len() && front[j] == k;
            if saved.contains_key(links.last()) {
                assert(unsaved_links(links, saved) == front);
            } else {
                assert(unsaved_links(links, saved) == front.push(links.last()));
                assert(front.push(links.last())[j] == k);
            }
        }
    }
}

proof fn lemma_nothing_saved(links: Seq<Seq<char>>)
    ensures
        unsaved_links(links, Map::<Seq<char>, Seq<char>>::empty()) == links,
    decreases links.len(),
{
    if links.len() > 0 {
        lemma_nothing_saved(links.drop_last());
        assert(links.drop_last().push(links.last()) =~= links);
    }
}

proof fn lemma_contains_after<A>(s: Seq<A>, t: Seq<A>, x: A)
    ensures
        s.contains(x) ==> (s + t).contains(x),
        t.contains(x) ==> (s + t).contains(x),
{
    if s.contains(x) {
        let i = choose|i: int| 0 <= i < s.len() && s[i] == x;
        assert((s + t)[i] == x);
    }
    if t.contains(x) {
        let i = choose|i: int| 0 <= i < t.len() && t[i] == x;
        assert((s + t)[s.len() + i] == x);
    }
}

proof fn lemma_character_links_hold(cs: Seq<user::Character>, j: int, k: int)
    requires
        0 <= j < cs.len(),
        0 <= k < cs[j].links@.len(),
    ensures
        character_links_of(cs).contains(cs[j].links@[k]@),
    decreases cs.len(),
{
    let front = character_links_of(cs.drop_last());
    let own = cs.last().links@.map_values(|l: String| l@);
    if j < cs.len() - 1 {
        assert(cs.drop_last()[j] == cs[j]);
        lemma_character_links_hold(cs.drop_last(), j, k);
    } else {
        assert(own[k] == cs[j].links@[k]@);
    }
    lemma_contains_after(front, own, cs[j].links@[k]@);
}

/// Every link of every character of every show of a catalogue is among
/// its links; one more show adds its characters' links at the end.
pub proof fn law_all_links_cover_the_catalogue(shows: Seq<user::Anime>, a: user::Anime, i: int, j: int, k: int)
    ensures
        links_of(shows.push(a)) == links_of(shows) + character_links_of(a.characters@),
        0 <= i < shows.len() && 0 <= j < shows[i].characters@.len() && 0 <= k
            < shows[i].characters@[j].links@.len() ==> links_of(shows).contains(
            shows[i].characters@[j].links@[k]@,
        ),
    decreases shows.len(),
{
    assert(shows.push(a).drop_last() =~= shows);
    if 0 <= i < shows.len() && 0 <= j < shows[i].characters@.len() && 0 <= k < shows[i].characters@[j].links@.len() {
        let x = shows[i].characters@[j].links@[k]@;
        let front = links_of(shows.drop_last());
        let own = character_links_of(shows.last().characters@);
        if i < shows.len() - 1 {
            assert(shows.drop_last()[i] == shows[i]);
            law_all_links_cover_the_catalogue(shows.drop_last(), a, i, j, k);
        } else {
            lemma_character_links_hold(shows.last().characters@, j, k);
        }
        lemma_contains_after(front, own, x);
    }
}

/// A link whose downloads all failed keeps what was saved for it before:
/// nothing, if it was not saved.
pub proof fn law_failed_downloads_save_nothing(saved: Map<Seq<char>, Seq<char>>, fetched: Seq<Fetched>, k: Seq<char>)
    requires
        forall|i: int| 0 <= i < fetched.len() && #[trigger] fetched[i].0@ == k ==> fetched[i].1 is Err,
    ensures
        with_downloads(saved, fetched).contains_key(k) == saved.contains_key(k),
        saved.contains_key(k) ==> with_downloads(saved, fetched)[k] == saved[k],
    decreases fetched.len(),
{
    if fetched.len() > 0 {
        assert forall|i: int| 0 <= i < fetched.drop_last().len() && #[trigger] fetched.drop_last()[i].0@ == k implies fetched.drop_last()[i].1 is Err by {
            assert(fetched.drop_last()[i] == fetched[i]);
        }
        law_failed_downloads_save_nothing(saved, fetched.drop_last(), k);
        assert(fetched.last() == fetched[fetched.len() - 1]);
    }
}

} // verus!
