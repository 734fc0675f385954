//! What the bot reads from its database, and how it decides between the
//! queries it runs. The queries themselves are run by the program around
//! the library; their answers come back here as plain values.

use vstd::prelude::*;
use crate::error::Error;
use crate::text::{decimal, push_decimal};

verus! {

/// Where the database lives and who logs in to it.
pub struct DatabaseConfig {
    pub address: String,
    pub port: u32,
    pub database_name: String,
    pub username: String,
    pub password: String,
}

/// `postgresql://{username}:{password}@{address}:{port}/{database_name}`.
pub open spec fn connection_url_of(
    username: Seq<char>,
    password: Seq<char>,
    address: Seq<char>,
    port: nat,
    database_name: Seq<char>,
) -> Seq<char> {
    seq!['p', 'o', 's', 't', 'g', 'r', 'e', 's', 'q', 'l', ':', '/', '/'] + username + seq![':']
        + password + seq!['@'] + address + seq![':'] + decimal(port) + seq!['/'] + database_name
}

impl DatabaseConfig {
    /// The URL that the database client connects to.
    pub fn connection_url(&self) -> (url: String)
        ensures
            url@ == connection_url_of(
                self.username@,
                self.password@,
                self.address@,
                self.port as nat,
                self.database_name@,
            ),
    {
        proof {
            reveal_strlit("postgresql://");
            reveal_strlit(":");
            reveal_strlit("@");
            reveal_strlit("/");
        }
        let mut url = "postgresql://".to_owned();
        url.append(self.username.as_str());
        url.append(":");
        url.append(self.password.as_str());
        url.append("@");
        url.append(self.address.as_str());
        url.append(":");
        push_decimal(&mut url, self.port as u64);
        url.append("/");
        url.append(self.database_name.as_str());
        url
    }
}

/// A picture chosen for a user, with the names that caption it.
pub struct Picture {
    file_name: String,
    character_name: String,
    anime_name: String,
    file_id: i32,
    save_folder: String,
}

/// What a `Picture` holds.
pub struct PictureView {
    pub file_name: Seq<char>,
    pub character_name: Seq<char>,
    pub anime_name: Seq<char>,
    pub file_id: i32,
    pub save_folder: Seq<char>,
}

impl View for Picture {
    type V = PictureView;

    closed spec fn view(&self) -> PictureView {
        PictureView {
            file_name: self.file_name@,
            character_name: self.character_name@,
            anime_name: self.anime_name@,
            file_id: self.file_id,
            save_folder: self.save_folder@,
        }
    }
}

/// The path of a saved picture: the save folder, a backslash, the file name.
pub open spec fn picture_path(save_folder: Seq<char>, file_name: Seq<char>) -> Seq<char> {
    save_folder + seq!['\\'] + file_name
}

impl Picture {
    /// Where the picture's file is stored.
    pub fn file_path(&self) -> (path: String)
        ensures
            path@ == picture_path(self@.save_folder, self@.file_name),
    {
        proof {
            reveal_strlit("\\");
        }
        let c = self.file_name.clone();
        let mut save = self.save_folder.clone();
        save.append("\\");
        save.append(c.as_str());
        save
    }

    /// The name of the character in the picture.
    pub fn character(&self) -> (name: &String)
        ensures
            name@ == self@.character_name,
    {
        &self.character_name
    }

    /// The name of the show the character comes from.
    pub fn anime(&self) -> (name: &String)
        ensures
            name@ == self@.anime_name,
    {
        &self.anime_name
    }

    /// The database id of the picture's file.
    pub fn file_id(&self) -> (id: &i32)
        ensures
            *id == self@.file_id,
    {
        &self.file_id
    }
}

/// One column of a row as the database client hands it out: `None` when
/// the row has no such column, `Some(Err(message))` when the value could
/// not be converted, `Some(Ok(value))` otherwise.
pub type Column<T> = Option<Result<T, String>>;

/// The columns of a row that describes a picture, in the order the
/// queries select them.
pub struct PictureRow {
    pub anime_name: Column<String>,
    pub character_name: Column<String>,
    pub file_name: Column<String>,
    pub file_id: Column<i32>,
}

/// The error that a column stands for, if any.
pub open spec fn column_error<T>(c: Column<T>) -> Option<Error> {
    match c {
        None => Some(Error::DatabaseParse),
        Some(Err(m)) => Some(Error::Postgres(m)),
        Some(Ok(_)) => None,
    }
}

/// The error of the first column, in select order, that holds no value.
pub open spec fn first_bad_column(row: PictureRow) -> Option<Error> {
    if column_error(row.anime_name) is Some {
        column_error(row.anime_name)
    } else if column_error(row.character_name) is Some {
        column_error(row.character_name)
    } else if column_error(row.file_name) is Some {
        column_error(row.file_name)
    } else {
        column_error(row.file_id)
    }
}

/// The picture that a complete row describes.
pub open spec fn row_picture(row: PictureRow, save_folder: Seq<char>) -> PictureView {
    PictureView {
        file_name: row.file_name->Some_0->Ok_0@,
        character_name: row.character_name->Some_0->Ok_0@,
        anime_name: row.anime_name->Some_0->Ok_0@,
        file_id: row.file_id->Some_0->Ok_0,
        save_folder: save_folder,
    }
}

/// What turning a row into a picture gives.
pub open spec fn row_outcome(row: PictureRow, save_folder: Seq<char>) -> Result<PictureView, Error> {
    match first_bad_column(row) {
        Some(e) => Err(e),
        None => Ok(row_picture(row, save_folder)),
    }
}

/// Turns one column into its value, or into the error it stands for.
fn take_column<T>(c: Column<T>) -> (res: Result<T, Error>)
    ensures
        match res {
            Ok(v) => c == Some(Ok::<T, String>(v)),
            Err(e) => column_error(c) == Some(e),
        },
{
    match c {
        Some(Ok(v)) => Ok(v),
        Some(Err(m)) => Err(Error::Postgres(m)),
        None => Err(Error::DatabaseParse),
    }
}

/// Checks that each column of a row that describes a picture holds a
/// value, and builds the picture from them. The first column that does
/// not decides the error.
pub fn row_matcher(row: PictureRow, save_folder: String) -> (res: Result<Picture, Error>)
    ensures
        match res {
            Ok(p) => row_outcome(row, save_folder@) == Ok::<PictureView, Error>(p@),
            Err(e) => row_outcome(row, save_folder@) == Err::<PictureView, Error>(e),
        },
{
    let ghost g = row;
    let anime_name = match take_column(row.anime_name) {
        Ok(v) => v,
        Err(e) => return Err(e),
    };
    let character_name = match take_column(row.character_name) {
        Ok(v) => v,
        Err(e) => return Err(e),
    };
    let file_name = match take_column(row.file_name) {
        Ok(v) => v,
        Err(e) => return Err(e),
    };
    let file_id = match take_column(row.file_id) {
        Ok(v) => v,
        Err(e) => return Err(e),
    };
    let p = Picture { file_name, character_name, anime_name, file_id, save_folder };
    assert(p@ == row_picture(g, save_folder@));
    Ok(p)
}

/// What to do after asking for the next picture a user has not rated.
pub enum UserFileChoice {
    /// The picture to show.
    Found(Picture),
    /// Fall back to the first picture of all.
    PullRandom,
    /// Give up with this error.
    Failed(Error),
}

/// Decides on the answer to the query for a user's next unrated picture.
/// `first_row` is the first row of the answer, `None` when it has no rows.
/// A missing row, or a row that cannot be read, falls back to the first
/// picture of all.
pub fn choose_user_file(first_row: Option<PictureRow>, save_folder: String) -> (res: UserFileChoice)
    ensures
        match first_row {
            None => res is PullRandom,
            Some(row) => match row_outcome(row, save_folder@) {
                Ok(v) => res matches UserFileChoice::Found(p) && p@ == v,
                Err(_) => res is PullRandom,
            },
        },
{
    match first_row {
        None => UserFileChoice::PullRandom,
        Some(row) => match row_matcher(row, save_folder) {
            Ok(good_picture) => UserFileChoice::Found(good_picture),
            Err(err) => match err {
                Error::Postgres(_) | Error::DatabaseParse => UserFileChoice::PullRandom,
                _ => UserFileChoice::Failed(Error::DatabaseParse),
            },
        },
    }
}

/// Decides on the answer to the query for the first picture of all:
/// an empty answer is an error, otherwise its first row is read.
pub fn choose_random_file(first_row: Option<PictureRow>, save_folder: String) -> (res: Result<Picture, Error>)
    ensures
        match first_row {
            None => res == Err::<Picture, Error>(Error::EmptyQuery),
            Some(row) => match res {
                Ok(p) => row_outcome(row, save_folder@) == Ok::<PictureView, Error>(p@),
                Err(e) => row_outcome(row, save_folder@) == Err::<PictureView, Error>(e),
            },
        },
{
    match first_row {
        Some(row) => row_matcher(row, save_folder),
        None => Err(Error::EmptyQuery),
    }
}

/// Whether a lookup that answered with `rows` rows found nothing: only a
/// single row counts as found.
pub fn missing_from_rows(rows: usize) -> (missing: bool)
    ensures
        missing == (rows != 1),
{
    if rows == 1 {
        false
    } else {
        true
    }
}

/// The database's signed form of a Discord id: the same 64 bits.
pub fn discord_id_to_db(id: u64) -> (db_id: i64)
    ensures
        db_id == id as i64,
{
    id as i64
}

/// A row that cannot be read only ever fails with a conversion or a
/// missing-column error, so the search for a user's next picture falls
/// back to the first picture of all and never gives up on its own.
pub proof fn law_unreadable_rows_fall_back(row: PictureRow)
    ensures
        first_bad_column(row) matches Some(e) ==> (e is Postgres || e is DatabaseParse),
{
}

/// A row whose four columns hold values becomes the picture made of
/// exactly those values.
pub proof fn law_complete_row_is_read(
    row: PictureRow,
    save_folder: Seq<char>,
    anime: String,
    character: String,
    file: String,
    id: i32,
)
    requires
        row.anime_name == Some(Ok::<String, String>(anime)),
        row.character_name == Some(Ok::<String, String>(character)),
        row.file_name == Some(Ok::<String, String>(file)),
        row.file_id == Some(Ok::<i32, String>(id)),
    ensures
        row_outcome(row, save_folder) == Ok::<PictureView, Error>(PictureView {
            file_name: file@,
            character_name: character@,
            anime_name: anime@,
            file_id: id,
            save_folder,
        }),
{
}

/// A picture's path is the whole save folder, one backslash, and the
/// whole file name.
pub proof fn law_picture_path_parts(save_folder: Seq<char>, file_name: Seq<char>)
    ensures
        picture_path(save_folder, file_name).len() == save_folder.len() + 1 + file_name.len(),
        picture_path(save_folder, file_name).take(save_folder.len() as int) == save_folder,
        picture_path(save_folder, file_name)[save_folder.len() as int] == '\\',
        picture_path(save_folder, file_name).skip((save_folder.len() + 1) as int) == file_name,
{
    let p = picture_path(save_folder, file_name);
    assert(p.take(save_folder.len() as int) =~= save_folder);
    assert(p.skip((save_folder.len() + 1) as int) =~= file_name);
}

/// The connection URL starts with the `postgresql://` scheme and the user
/// name followed by a colon, and ends with a slash and the database name.
pub proof fn law_connection_url_parts(
    username: Seq<char>,
    password: Seq<char>,
    address: Seq<char>,
    port: nat,
    database_name: Seq<char>,
)
    ensures
        ({
            let url = connection_url_of(username, password, address, port, database_name);
            let scheme = seq!['p', 'o', 's', 't', 'g', 'r', 'e', 's', 'q', 'l', ':', '/', '/'];
            &&& url.take(13) == scheme
            &&& url.subrange(13, (13 + username.len()) as int) == username
            &&& url[(13 + username.len()) as int] == ':'
            &&& url.skip(url.len() - database_name.len() - 1) == seq!['/'] + database_name
        }),
{
    let url = connection_url_of(username, password, address, port, database_name);
    let scheme = seq!['p', 'o', 's', 't', 'g', 'r', 'e', 's', 'q', 'l', ':', '/', '/'];
    assert(url.take(13) =~= scheme);
    assert(url.subrange(13, (13 + username.len()) as int) =~= username);
    assert(url.skip(url.len() - database_name.len() - 1) =~= seq!['/'] + database_name);
}

/// The first column, in select order, that holds no value decides the
/// error: a missing column is a parse error, an unconvertible one the
/// database's own error, whatever the later columns hold.
pub proof fn law_first_failing_column_decides(row: PictureRow, save_folder: Seq<char>, m: String)
    ensures
        row.anime_name is None ==> row_outcome(row, save_folder) == Err::<PictureView, Error>(Error::DatabaseParse),
        row.anime_name == Some(Err::<String, String>(m))
            ==> row_outcome(row, save_folder) == Err::<PictureView, Error>(Error::Postgres(m)),
        row.anime_name is Some && row.anime_name->Some_0 is Ok && row.character_name is None
            ==> row_outcome(row, save_folder) == Err::<PictureView, Error>(Error::DatabaseParse),
        row.anime_name is Some && row.anime_name->Some_0 is Ok && row.character_name == Some(Err::<String, String>(m))
            ==> row_outcome(row, save_folder) == Err::<PictureView, Error>(Error::Postgres(m)),
        row.anime_name is Some && row.anime_name->Some_0 is Ok && row.character_name is Some
            && row.character_name->Some_0 is Ok && row.file_name is None
            ==> row_outcome(row, save_folder) == Err::<PictureView, Error>(Error::DatabaseParse),
        row.anime_name is Some && row.anime_name->Some_0 is Ok && row.character_name is Some
            && row.character_name->Some_0 is Ok && row.file_name is Some && row.file_name->Some_0 is Ok
            && row.file_id is None
            ==> row_outcome(row, save_folder) == Err::<PictureView, Error>(Error::DatabaseParse),
{
}

} // verus!
