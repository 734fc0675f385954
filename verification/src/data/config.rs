//! Loading the catalogue into the database: which rows to create, in
//! which order, and the file names that downloaded pictures are saved
//! under. The database and the network are driven by the program around
//! the library, one step at a time.

use vstd::prelude::*;
use crate::seq_facts::lemma_take_step;
use std::collections::hash_map::DefaultHasher;
use vstd::std_specs::hash::DefaultHasherAdditionalSpecFns;
use crate::error::Error;
use crate::text::{decimal, digits_value, law_decimal_injective, law_decimal_reads_back, push_decimal};

verus! {

/// The catalogue read from its YAML file.
pub struct Data {
    pub shows: Vec<Anime>,
    pub save_location: String,
}

impl Data {
    /// The folder where pictures are saved.
    pub fn path(&self) -> (p: &str)
        ensures
            p@ == self.save_location@,
    {
        self.save_location.as_str()
    }
}

/// A show and its characters.
pub struct Anime {
    pub name: String,
    pub characters: Vec<Character>,
}

/// A character and the links to its pictures.
pub struct Character {
    pub name: String,
    pub links: Vec<String>,
}

/// One thing to do while loading the catalogue into the database.
pub enum CatalogStep {
    /// Create the show's row.
    NewAnime { anime: String },
    /// Create the character's row, under its show.
    NewCharacter { anime: String, character: String },
    /// Ask whether the link's picture is stored yet; if it is not,
    /// download it and record its file under the character.
    Link { anime: String, character: String, link: String },
}

/// What a `CatalogStep` holds.
pub enum CatalogStepView {
    NewAnime { anime: Seq<char> },
    NewCharacter { anime: Seq<char>, character: Seq<char> },
    Link { anime: Seq<char>, character: Seq<char>, link: Seq<char> },
}

impl View for CatalogStep {
    type V = CatalogStepView;

    open spec fn view(&self) -> CatalogStepView {
        match self {
            CatalogStep::NewAnime { anime } => CatalogStepView::NewAnime { anime: anime@ },
            CatalogStep::NewCharacter { anime, character } => CatalogStepView::NewCharacter {
                anime: anime@,
                character: character@,
            },
            CatalogStep::Link { anime, character, link } => CatalogStepView::Link {
                anime: anime@,
                character: character@,
                link: link@,
            },
        }
    }
}

/// The views of a sequence of steps.
pub open spec fn step_views(s: Seq<CatalogStep>) -> Seq<CatalogStepView> {
    s.map_values(|x: CatalogStep| x@)
}

/// One link step per link of a character, in order.
pub open spec fn link_steps(anime: Seq<char>, character: Seq<char>, links: Seq<String>) -> Seq<CatalogStepView> {
    links.map_values(|l: String| CatalogStepView::Link { anime, character, link: l@ })
}

/// The steps for one character: its row, then each of its links in order.
pub open spec fn character_steps(anime: Seq<char>, c: Character) -> Seq<CatalogStepView> {
    seq![CatalogStepView::NewCharacter { anime, character: c.name@ }] + link_steps(anime, c.name@, c.links@)
}

/// The steps for the characters of a show, one character after another.
pub open spec fn characters_steps(anime: Seq<char>, cs: Seq<Character>) -> Seq<CatalogStepView>
    decreases cs.len(),
{
    if cs.len() == 0 {
        seq![]
    } else {
        characters_steps(anime, cs.drop_last()) + character_steps(anime, cs.last())
    }
}

/// The steps for one show: its row, then its characters.
pub open spec fn anime_steps(a: Anime) -> Seq<CatalogStepView> {
    seq![CatalogStepView::NewAnime { anime: a.name@ }] + characters_steps(a.name@, a.characters@)
}

/// The steps for a list of shows, one show after another.
pub open spec fn shows_steps(shows: Seq<Anime>) -> Seq<CatalogStepView>
    decreases shows.len(),
{
    if shows.len() == 0 {
        seq![]
    } else {
        shows_steps(shows.drop_last()) + anime_steps(shows.last())
    }
}

proof fn lemma_push_view(s: Seq<CatalogStep>, x: CatalogStep)
    ensures
        step_views(s.push(x)) == step_views(s).push(x@),
{
    assert(step_views(s.push(x)) =~= step_views(s).push(x@));
}


impl Data {
    /// Everything to do to load the catalogue, in order: for each show its
    /// row, then for each of its characters the character's row followed
    /// by one step per link.
    pub fn catalog_steps(&self) -> (steps: Vec<CatalogStep>)
        ensures
            step_views(steps@) == shows_steps(self.shows@),
    {
        let mut steps: Vec<CatalogStep> = Vec::new();
        let mut i: usize = 0;
        while i < self.shows.len()
            invariant
                i <= self.shows@.len(),
                step_views(steps@) == shows_steps(self.shows@.take(i as int)),
            decreases self.shows@.len() - i,
        {
            let show = &self.shows[i];
            let ghost before_show = step_views(steps@);
            let ghost anime = show.name@;
            let step = CatalogStep::NewAnime { anime: show.name.clone() };
            proof { lemma_push_view(steps@, step); }
            steps.push(step);
            let mut j: usize = 0;
            while j < show.characters.len()
                invariant
                    j <= show.characters@.len(),
                    anime == show.name@,
                    step_views(steps@) == before_show + seq![CatalogStepView::NewAnime { anime }]
                        + characters_steps(anime, show.characters@.take(j as int)),
                decreases show.characters@.len() - j,
            {
                let character = &show.characters[j];
                let ghost before_character = step_views(steps@);
                let step = CatalogStep::NewCharacter {
                    anime: show.name.clone(),
                    character: character.name.clone(),
                };
                proof { lemma_push_view(steps@, step); }
                steps.push(step);
                let mut k: usize = 0;
                while k < character.links.len()
                    invariant
                        k <= character.links@.len(),
                        anime == show.name@,
                        step_views(steps@) == before_character
                            + seq![CatalogStepView::NewCharacter { anime, character: character.name@ }]
                            + link_steps(anime, character.name@, character.links@.take(k as int)),
                    decreases character.links@.len() - k,
                {
                    let step = CatalogStep::Link {
                        anime: show.name.clone(),
                        character: character.name.clone(),
                        link: character.links[k].clone(),
                    };
                    proof {
                        lemma_push_view(steps@, step);
                        lemma_take_step(character.links@, k as int);
                        assert(link_steps(anime, character.name@, character.links@.take(k + 1))
                            =~= link_steps(anime, character.name@, character.links@.take(k as int)).push(step@));
                    }
                    steps.push(step);
                    k = k + 1;
                }
                proof {
                    assert(character.links@.take(k as int) =~= character.links@);
                    lemma_take_step(show.characters@, j as int);
                    assert(characters_steps(anime, show.characters@.take(j + 1))
                        == characters_steps(anime, show.characters@.take(j as int)) + character_steps(anime, *character));
                    assert(step_views(steps@) =~= before_show + seq![CatalogStepView::NewAnime { anime }]
                        + characters_steps(anime, show.characters@.take(j + 1)));
                }
                j = j + 1;
            }
            proof {
                assert(show.characters@.take(j as int) =~= show.characters@);
                lemma_take_step(self.shows@, i as int);
                assert(step_views(steps@) =~= shows_steps(self.shows@.take(i + 1)));
            }
            i = i + 1;
        }
        proof {
            assert(self.shows@.take(i as int) =~= self.shows@);
        }
        steps
    }
}

/// The name a downloaded picture is saved under: the hash, in decimal,
/// followed by `.png`.
pub open spec fn png_file_name(hash: u64) -> Seq<char> {
    decimal(hash as nat) + seq!['.', 'p', 'n', 'g']
}

/// The file name for a picture whose link hashed to `hash`.
pub fn png_name_for_hash(hash: u64) -> (name: String)
    ensures
        name@ == png_file_name(hash),
{
    proof {
        reveal_strlit(".png");
    }
    let mut name = String::new();
    push_decimal(&mut name, hash);
    name.append(".png");
    name
}

/// What feeding a link into a default hasher, as `Hash::hash` does for a
/// `String`, leaves in it, given what it held before.
pub uninterp spec fn hasher_after_link(before: Seq<Seq<u8>>, link: Seq<char>) -> Seq<Seq<u8>>;

/// Feeds a link into a hasher, as `Hash::hash` does for a `String`. What
/// the hasher holds afterwards depends only on what it held before and on
/// the link; the standard library documents neither the bytes a string
/// feeds in nor the hashing algorithm, so that is all that is stated.
#[verifier::external_body]
fn hash_link_into(link: &String, hasher: &mut DefaultHasher)
    ensures
        final(hasher)@ == hasher_after_link(old(hasher)@, link@),
{
    std::hash::Hash::hash(link, hasher)
}

/// The hash of a link by a fresh default hasher. Every `DefaultHasher`
/// made by `new` starts out the same, so the hash depends on the link alone.
pub open spec fn link_hash(link: Seq<char>) -> u64 {
    DefaultHasher::spec_finish(hasher_after_link(Seq::<Seq<u8>>::empty(), link))
}

/// The file name a picture downloaded from `link` is saved under: the
/// link's hash by a fresh default hasher, in decimal, followed by `.png`.
/// Equal links give equal names.
pub fn download_file_name(link: &String) -> (name: String)
    ensures
        name@ == png_file_name(link_hash(link@)),
{
    let mut hasher = DefaultHasher::new();
    hash_link_into(link, &mut hasher);
    let hash = std::hash::Hasher::finish(&hasher);
    png_name_for_hash(hash)
}

/// Links whose hashes differ are saved under different file names.
pub proof fn law_distinct_hashes_distinct_files(a: u64, b: u64)
    requires
        png_file_name(a) == png_file_name(b),
    ensures
        a == b,
{
    let na = png_file_name(a);
    let nb = png_file_name(b);
    assert(na.len() == nb.len());
    assert(decimal(a as nat) =~= na.subrange(0, na.len() - 4));
    assert(decimal(b as nat) =~= nb.subrange(0, nb.len() - 4));
    law_decimal_injective(a as nat, b as nat);
}

/// A link saved under the same name as itself: the file name depends on
/// the link alone.
pub proof fn law_equal_links_equal_files(a: Seq<char>, b: Seq<char>)
    requires
        a == b,
    ensures
        png_file_name(link_hash(a)) == png_file_name(link_hash(b)),
{
}

/// What the database or the network answered to the last thing done for
/// a catalogue step.
pub enum LoadEvent {
    /// The show's row was written, or not.
    AnimeCreated(Result<(), Error>),
    /// The character's row was written, or not.
    CharacterCreated(Result<(), Error>),
    /// Whether the link still has to be downloaded, or why that is unknown.
    LinkChecked(Result<bool, Error>),
    /// The file name the picture was saved under, or why the download failed.
    Downloaded(Result<String, Error>),
    /// The file's row was written, or not.
    FileInserted(Result<(), Error>),
}

/// What to do next while loading the catalogue.
pub enum LoadAction {
    /// Go on with the next catalogue step.
    NextStep,
    /// Download the link's picture.
    Download,
    /// Record the downloaded file under the link's character.
    InsertFile { file_name: String },
    /// Stop loading with this error.
    Fail(Error),
}

/// How loading reacts to each answer: a failed link check or download
/// stops the whole load with its error; the outcome of writing a show, a
/// character or a file row is not looked at; a link that is stored
/// already is skipped; a downloaded picture is recorded.
pub open spec fn load_next(event: LoadEvent) -> LoadAction {
    match event {
        LoadEvent::AnimeCreated(_) => LoadAction::NextStep,
        LoadEvent::CharacterCreated(_) => LoadAction::NextStep,
        LoadEvent::LinkChecked(Ok(true)) => LoadAction::Download,
        LoadEvent::LinkChecked(Ok(false)) => LoadAction::NextStep,
        LoadEvent::LinkChecked(Err(e)) => LoadAction::Fail(e),
        LoadEvent::Downloaded(Ok(file_name)) => LoadAction::InsertFile { file_name },
        LoadEvent::Downloaded(Err(e)) => LoadAction::Fail(e),
        LoadEvent::FileInserted(_) => LoadAction::NextStep,
    }
}

/// Decides what to do after an answer during loading.
pub fn load_step(event: LoadEvent) -> (action: LoadAction)
    ensures
        action == load_next(event),
{
    match event {
        LoadEvent::AnimeCreated(_) => LoadAction::NextStep,
        LoadEvent::CharacterCreated(_) => LoadAction::NextStep,
        LoadEvent::LinkChecked(checked) => match checked {
            Ok(need) => if need {
                LoadAction::Download
            } else {
                LoadAction::NextStep
            },
            Err(e) => LoadAction::Fail(e),
        },
        LoadEvent::Downloaded(downloaded) => match downloaded {
            Ok(file_name) => LoadAction::InsertFile { file_name },
            Err(e) => LoadAction::Fail(e),
        },
        LoadEvent::FileInserted(_) => LoadAction::NextStep,
    }
}

/// A link is downloaded only when the database does not hold it yet, and
/// recorded only under the name its download gave; only a failed check or
/// download stops the load.
pub proof fn law_only_checks_and_downloads_stop_loading(event: LoadEvent)
    ensures
        load_next(event) is Fail ==> (event is LinkChecked || event is Downloaded),
        load_next(event) is Download ==> event == LoadEvent::LinkChecked(Ok(true)),
        load_next(event) matches LoadAction::InsertFile { file_name }
            ==> event == LoadEvent::Downloaded(Ok::<String, Error>(file_name)),
{
}

/// The steps of a catalogue are the steps of its shows one after another:
/// no shows, no steps; one more show, its steps added at the end.
pub proof fn law_catalog_steps_compose(shows: Seq<Anime>, a: Anime)
    ensures
        shows_steps(Seq::<Anime>::empty()) == Seq::<CatalogStepView>::empty(),
        shows_steps(shows.push(a)) == shows_steps(shows) + anime_steps(a),
{
    assert(shows.push(a).drop_last() =~= shows);
}

/// The steps of a show are its row followed by the steps of its
/// characters, one after another; those of a character are its row
/// followed by one link step per link, in order.
pub proof fn law_show_steps_shape(a: Anime, cs: Seq<Character>, c: Character, k: int)
    ensures
        anime_steps(a)[0] == (CatalogStepView::NewAnime { anime: a.name@ }),
        anime_steps(a).len() == 1 + characters_steps(a.name@, a.characters@).len(),
        anime_steps(a).skip(1) == characters_steps(a.name@, a.characters@),
        characters_steps(a.name@, Seq::<Character>::empty()) == Seq::<CatalogStepView>::empty(),
        characters_steps(a.name@, cs.push(c)) == characters_steps(a.name@, cs)
            + seq![(CatalogStepView::NewCharacter { anime: a.name@, character: c.name@ })]
            + link_steps(a.name@, c.name@, c.links@),
        link_steps(a.name@, c.name@, c.links@).len() == c.links@.len(),
        0 <= k < c.links@.len() ==> link_steps(a.name@, c.name@, c.links@)[k]
            == (CatalogStepView::Link { anime: a.name@, character: c.name@, link: c.links@[k]@ }),
{
    assert(cs.push(c).drop_last() =~= cs);
    assert(anime_steps(a).skip(1) =~= characters_steps(a.name@, a.characters@));
}

proof fn lemma_contains_concat<A>(s: Seq<A>, t: Seq<A>, x: A)
    ensures
        s.contains(x) ==> (s + t).contains(x),
        t.contains(x) ==> (s + t).contains(x),
{
    if s.contains(x) {
        let i = choose|i: int| 0 <= i < s.len() && s[i] == x;
        assert((s + t)[i] == x);
    }
    if t.contains(x) {
        let i = choose|i: int| 0 <= i < t.len() && t[i] == x;
        assert((s + t)[s.len() + i] == x);
    }
}

proof fn lemma_characters_steps_hold(n: Seq<char>, cs: Seq<Character>, j: int, k: int)
    requires
        0 <= j < cs.len(),
    ensures
        characters_steps(n, cs).contains(CatalogStepView::NewCharacter { anime: n, character: cs[j].name@ }),
        0 <= k < cs[j].links@.len() ==> characters_steps(n, cs).contains(
            CatalogStepView::Link { anime: n, character: cs[j].name@, link: cs[j].links@[k]@ },
        ),
    decreases cs.len(),
{
    let c = cs.last();
    let front = characters_steps(n, cs.drop_last());
    let own = seq![CatalogStepView::NewCharacter { anime: n, character: c.name@ }] + link_steps(n, c.name@, c.links@);
    assert(characters_steps(n, cs) == front + own);
    if j < cs.len() - 1 {
        assert(cs.drop_last()[j] == cs[j]);
        lemma_characters_steps_hold(n, cs.drop_last(), j, k);
        lemma_contains_concat(front, own, CatalogStepView::NewCharacter { anime: n, character: cs[j].name@ });
        lemma_contains_concat(front, own, CatalogStepView::Link { anime: n, character: cs[j].name@, link: cs[j].links@[k]@ });
    } else {
        assert(own[0] == CatalogStepView::NewCharacter { anime: n, character: c.name@ });
        lemma_contains_concat(front, own, CatalogStepView::NewCharacter { anime: n, character: c.name@ });
        if 0 <= k < c.links@.len() {
            assert(own[1 + k] == CatalogStepView::Link { anime: n, character: c.name@, link: c.links@[k]@ });
            lemma_contains_concat(front, own, CatalogStepView::Link { anime: n, character: c.name@, link: c.links@[k]@ });
        }
    }
}

/// Loading a catalogue creates the row of every show, the row of every
/// character under its show, and checks every link of every character.
pub proof fn law_catalog_steps_cover_everything(shows: Seq<Anime>, i: int, j: int, k: int)
    requires
        0 <= i < shows.len(),
    ensures
        shows_steps(shows).contains(CatalogStepView::NewAnime { anime: shows[i].name@ }),
        0 <= j < shows[i].characters@.len() ==> shows_steps(shows).contains(
            CatalogStepView::NewCharacter { anime: shows[i].name@, character: shows[i].characters@[j].name@ },
        ),
        0 <= j < shows[i].characters@.len() && 0 <= k < shows[i].characters@[j].links@.len()
            ==> shows_steps(shows).contains(CatalogStepView::Link {
                anime: shows[i].name@,
                character: shows[i].characters@[j].name@,
                link: shows[i].characters@[j].links@[k]@,
            }),
    decreases shows.len(),
{
    let a = shows[i];
    let front = shows_steps(shows.drop_last());
    let own = anime_steps(shows.last());
    assert(shows_steps(shows) == front + own);
    let x1 = CatalogStepView::NewAnime { anime: a.name@ };
    if i < shows.len() - 1 {
        assert(shows.drop_last()[i] == a);
        law_catalog_steps_cover_everything(shows.drop_last(), i, j, k);
        lemma_contains_concat(front, own, x1);
        if 0 <= j < a.characters@.len() {
            lemma_contains_concat(front, own, CatalogStepView::NewCharacter { anime: a.name@, character: a.characters@[j].name@ });
            if 0 <= k < a.characters@[j].links@.len() {
                lemma_contains_concat(front, own, CatalogStepView::Link {
                    anime: a.name@,
                    character: a.characters@[j].name@,
                    link: a.characters@[j].links@[k]@,
                });
            }
        }
    } else {
        let rest = characters_steps(a.name@, a.characters@);
        assert(own == seq![x1] + rest);
        assert(own[0] == x1);
        lemma_contains_concat(front, own, x1);
        if 0 <= j < a.characters@.len() {
            lemma_characters_steps_hold(a.name@, a.characters@, j, k);
            let y = CatalogStepView::NewCharacter { anime: a.name@, character: a.characters@[j].name@ };
            lemma_contains_concat(seq![x1], rest, y);
            lemma_contains_concat(front, own, y);
            if 0 <= k < a.characters@[j].links@.len() {
                let z = CatalogStepView::Link {
                    anime: a.name@,
                    character: a.characters@[j].name@,
                    link: a.characters@[j].links@[k]@,
                };
                lemma_contains_concat(seq![x1], rest, z);
                lemma_contains_concat(front, own, z);
            }
        }
    }
}

/// A picture's file name is the hash, read back from its digits, followed
/// by `.png`.
pub proof fn law_png_name_reads_back(hash: u64)
    ensures
        png_file_name(hash).len() >= 5,
        png_file_name(hash).skip(png_file_name(hash).len() - 4) == seq!['.', 'p', 'n', 'g'],
        digits_value(png_file_name(hash).take(png_file_name(hash).len() - 4)) == hash,
{
    let n = png_file_name(hash);
    law_decimal_reads_back(hash as nat);
    assert(n.skip(n.len() - 4) =~= seq!['.', 'p', 'n', 'g']);
    assert(n.take(n.len() - 4) =~= decimal(hash as nat));
    assert(decimal(hash as nat).len() >= 1) by {
        reveal_with_fuel(decimal, 1);
    }
}

} // verus!
