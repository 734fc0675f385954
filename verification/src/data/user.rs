//! The catalogue a user of the bot writes: shows, their characters, and
//! the links to each character's pictures.

use vstd::prelude::*;

verus! {

/// The whole catalogue, and the folder where pictures are saved.
#[derive(Debug, Clone, Default)]
pub struct Data {
    pub shows: Vec<Anime>,
    pub save_location: String,
}

impl Data {
    /// The folder where pictures are saved.
    pub fn path(&self) -> (p: &str)
        ensures
            p@ == self.save_location@,
    {
        self.save_location.as_str()
    }

    /// The shows of the catalogue, in the order they were written.
    pub fn shows(&self) -> (s: &Vec<Anime>)
        ensures
            s@ == self.shows@,
    {
        &self.shows
    }
}

/// A show and its characters.
#[derive(Debug, Clone, Default)]
pub struct Anime {
    pub name: String,
    pub characters: Vec<Character>,
}

impl Anime {
    /// The show's name.
    pub fn name(&self) -> (n: &String)
        ensures
            n@ == self.name@,
    {
        &self.name
    }

    /// The show's characters, in the order they were written.
    pub fn characters(&self) -> (c: &Vec<Character>)
        ensures
            c@ == self.characters@,
    {
        &self.characters
    }
}

/// A character and the links to its pictures.
#[derive(Debug, Clone, Default)]
pub struct Character {
    pub name: String,
    pub links: Vec<String>,
}

impl Character {
    /// The character's name.
    pub fn name(&self) -> (n: &String)
        ensures
            n@ == self.name@,
    {
        &self.name
    }

    /// The links to the character's pictures, in the order they were written.
    pub fn links(&self) -> (l: &Vec<String>)
        ensures
            l@ == self.links@,
    {
        &self.links
    }
}

} // verus!
