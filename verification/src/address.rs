//! Where an elevation tile lives: its file on disk and its address on the tile server.
use vstd::prelude::*;
use crate::decimal::{
    decimal, is_digit, is_numeral, law_decimal_injective, law_decimal_is_the_numeral,
    lemma_decimal_digits, push_decimal,
};

verus! {

/// A tile of the map: zoom level, column and row.
#[derive(Debug)]
pub struct TerrariumCoords {
    pub z: u8,
    pub x: u32,
    pub y: u32,
}

impl Clone for TerrariumCoords {
    fn clone(&self) -> (copy: Self)
        ensures
            copy == *self,
    {
        TerrariumCoords { z: self.z, x: self.x, y: self.y }
    }
}

/// The three numbers of `coords` in decimal, with `sep` between them.
pub open spec fn spelled(coords: TerrariumCoords, sep: char) -> Seq<char> {
    decimal(coords.z as nat) + seq![sep] + decimal(coords.x as nat) + seq![sep] + decimal(
        coords.y as nat,
    )
}

impl TerrariumCoords {
    /// The path of the file that holds the tile.
    pub open spec fn spec_file_name(self) -> Seq<char> {
        "terrain_cache/"@ + spelled(self, '_') + ".webp"@
    }

    /// The address from which the tile is downloaded.
    pub open spec fn spec_url(self) -> Seq<char> {
        "https://tiles.mapterhorn.com/"@ + spelled(self, '/') + ".webp"@
    }

    /// The warning logged when the tile could not be fetched because of `error`.
    pub open spec fn spec_missing(self, error: Seq<char>) -> Seq<char> {
        "Missing tile "@ + spelled(self, '/') + ": "@ + error
    }

    /// Appends the three numbers with `sep`, the string of the character `c`, between them.
    fn spell(&self, out: &mut String, sep: &str, Ghost(c): Ghost<char>)
        requires
            sep@ == seq![c],
        ensures
            final(out)@ == old(out)@ + spelled(*self, c),
    {
        let ghost start = out@;
        push_decimal(out, self.z as u32);
        out.append(sep);
        push_decimal(out, self.x);
        out.append(sep);
        push_decimal(out, self.y);
        assert(out@ =~= start + spelled(*self, c));
    }

    /// The file that holds the tile: `terrain_cache/{z}_{x}_{y}.webp`.
    pub fn file_name(&self) -> (name: String)
        ensures
            name@ == self.spec_file_name(),
    {
        let mut name = String::new();
        name.append("terrain_cache/");
        proof {
            reveal_strlit("_");
            assert("_"@ =~= seq!['_']);
            assert(name@ =~= "terrain_cache/"@);
        }
        self.spell(&mut name, "_", Ghost('_'));
        name.append(".webp");
        name
    }

    /// The tile's address on the server: `https://tiles.mapterhorn.com/{z}/{x}/{y}.webp`.
    pub fn url(&self) -> (url: String)
        ensures
            url@ == self.spec_url(),
    {
        let mut url = String::new();
        url.append("https://tiles.mapterhorn.com/");
        proof {
            reveal_strlit("/");
            assert("/"@ =~= seq!['/']);
            assert(url@ =~= "https://tiles.mapterhorn.com/"@);
        }
        self.spell(&mut url, "/", Ghost('/'));
        url.append(".webp");
        url
    }

    /// The warning for a tile that could not be fetched: `Missing tile {z}/{x}/{y}: {error}`.
    pub fn missing(&self, error: &str) -> (message: String)
        ensures
            message@ == self.spec_missing(error@),
    {
        let mut message = String::new();
        message.append("Missing tile ");
        proof {
            reveal_strlit("/");
            assert("/"@ =~= seq!['/']);
            assert(message@ =~= "Missing tile "@);
        }
        self.spell(&mut message, "/", Ghost('/'));
        message.append(": ");
        message.append(error);
        message
    }
}

/// What a server's refusal is reported as.
pub open spec fn spec_refusal(url: Seq<char>, status: Seq<char>) -> Seq<char> {
    "Server responded to "@ + url + " with status: "@ + status
}

/// The error for a response that is no success: `Server responded to {url} with status: {status}`.
pub fn refusal(url: &str, status: &str) -> (message: String)
    ensures
        message@ == spec_refusal(url@, status@),
{
    let mut message = String::new();
    message.append("Server responded to ");
    assert(message@ =~= "Server responded to "@);
    message.append(url);
    message.append(" with status: ");
    message.append(status);
    message
}

/// Two digit strings that are each followed by `sep` and agree as a whole agree part by part.
proof fn lemma_split(a: Seq<char>, s: Seq<char>, b: Seq<char>, t: Seq<char>, sep: char)
    requires
        forall|i: int| 0 <= i < a.len() ==> is_digit(#[trigger] a[i]),
        forall|i: int| 0 <= i < b.len() ==> is_digit(#[trigger] b[i]),
        !is_digit(sep),
        a + seq![sep] + s == b + seq![sep] + t,
    ensures
        a == b,
        s == t,
{
    let u = a + seq![sep] + s;
    let v = b + seq![sep] + t;
    assert(u[a.len() as int] == sep);
    assert(v[b.len() as int] == sep);
    if a.len() < b.len() {
        assert(v[a.len() as int] == b[a.len() as int]);
    }
    if b.len() < a.len() {
        assert(u[b.len() as int] == a[b.len() as int]);
    }
    assert(a =~= u.take(a.len() as int));
    assert(b =~= v.take(b.len() as int));
    assert(s =~= u.skip((a.len() + 1) as int));
    assert(t =~= v.skip((b.len() + 1) as int));
}

/// Different tiles are spelled differently, whatever stands between the numbers, so long as it is
/// no digit.
pub proof fn law_spelled_injective(c: TerrariumCoords, d: TerrariumCoords, sep: char)
    requires
        !is_digit(sep),
        spelled(c, sep) == spelled(d, sep),
    ensures
        c == d,
{
    lemma_decimal_digits(c.z as nat);
    lemma_decimal_digits(d.z as nat);
    lemma_decimal_digits(c.x as nat);
    lemma_decimal_digits(d.x as nat);
    let s = decimal(c.x as nat) + seq![sep] + decimal(c.y as nat);
    let t = decimal(d.x as nat) + seq![sep] + decimal(d.y as nat);
    assert(spelled(c, sep) =~= decimal(c.z as nat) + seq![sep] + s);
    assert(spelled(d, sep) =~= decimal(d.z as nat) + seq![sep] + t);
    lemma_split(decimal(c.z as nat), s, decimal(d.z as nat), t, sep);
    lemma_split(
        decimal(c.x as nat),
        decimal(c.y as nat),
        decimal(d.x as nat),
        decimal(d.y as nat),
        sep,
    );
    law_decimal_injective(c.z as nat, d.z as nat);
    law_decimal_injective(c.x as nat, d.x as nat);
    law_decimal_injective(c.y as nat, d.y as nat);
}

/// A common prefix and a common suffix may be left out of an equation.
proof fn lemma_trim(prefix: Seq<char>, s: Seq<char>, t: Seq<char>, suffix: Seq<char>)
    requires
        prefix + s + suffix == prefix + t + suffix,
    ensures
        s == t,
{
    let u = prefix + s + suffix;
    let v = prefix + t + suffix;
    assert(u.len() == prefix.len() + s.len() + suffix.len());
    assert(v.len() == prefix.len() + t.len() + suffix.len());
    assert(s =~= u.subrange(prefix.len() as int, (prefix.len() + s.len()) as int));
    assert(t =~= v.subrange(prefix.len() as int, (prefix.len() + t.len()) as int));
}

/// A copy is of the same tile.
pub proof fn law_copy_is_of_same_tile(coords: TerrariumCoords, copy: TerrariumCoords)
    requires
        call_ensures(TerrariumCoords::clone, (&coords,), copy),
    ensures
        copy.z == coords.z,
        copy.x == coords.x,
        copy.y == coords.y,
{
}

/// Whether the strings are how the three numbers of a tile are written.
pub open spec fn are_numerals_of(
    coords: TerrariumCoords,
    z: Seq<char>,
    x: Seq<char>,
    y: Seq<char>,
) -> bool {
    is_numeral(z, coords.z as int) && is_numeral(x, coords.x as int) && is_numeral(
        y,
        coords.y as int,
    )
}

/// Every tile has its numerals.
pub proof fn law_tiles_have_numerals(coords: TerrariumCoords)
    ensures
        exists|z: Seq<char>, x: Seq<char>, y: Seq<char>| are_numerals_of(coords, z, x, y),
{
    law_decimal_is_the_numeral(coords.z as nat);
    law_decimal_is_the_numeral(coords.x as nat);
    law_decimal_is_the_numeral(coords.y as nat);
    assert(are_numerals_of(
        coords,
        decimal(coords.z as nat),
        decimal(coords.x as nat),
        decimal(coords.y as nat),
    ));
}

/// The three numbers are spelled by their numerals.
proof fn lemma_spelled_by_numerals(
    coords: TerrariumCoords,
    sep: char,
    z: Seq<char>,
    x: Seq<char>,
    y: Seq<char>,
)
    requires
        are_numerals_of(coords, z, x, y),
    ensures
        spelled(coords, sep) == z + seq![sep] + x + seq![sep] + y,
{
    law_decimal_is_the_numeral(coords.z as nat);
    law_decimal_is_the_numeral(coords.x as nat);
    law_decimal_is_the_numeral(coords.y as nat);
}

/// A tile's address on the server is made of its own zoom level, column and row, in this order, each
/// as it is written.
pub proof fn law_url_names_tile(
    coords: TerrariumCoords,
    z: Seq<char>,
    x: Seq<char>,
    y: Seq<char>,
    url: String,
)
    requires
        are_numerals_of(coords, z, x, y),
        call_ensures(TerrariumCoords::url, (&coords,), url),
    ensures
        url@ == "https://tiles.mapterhorn.com/"@ + z + "/"@ + x + "/"@ + y + ".webp"@,
{
    lemma_url_by_numerals(coords, z, x, y);
}

/// The address of a tile, by its numerals.
pub proof fn lemma_url_by_numerals(
    coords: TerrariumCoords,
    z: Seq<char>,
    x: Seq<char>,
    y: Seq<char>,
)
    requires
        are_numerals_of(coords, z, x, y),
    ensures
        coords.spec_url() == "https://tiles.mapterhorn.com/"@ + z + "/"@ + x + "/"@ + y
            + ".webp"@,
{
    lemma_spelled_by_numerals(coords, '/', z, x, y);
    reveal_strlit("/");
    assert("/"@ =~= seq!['/']);
    assert(coords.spec_url() =~= "https://tiles.mapterhorn.com/"@ + z + "/"@ + x + "/"@ + y
        + ".webp"@);
}

/// A tile's file is named by its own zoom level, column and row, in this order, each as it is written.
pub proof fn law_file_name_names_tile(
    coords: TerrariumCoords,
    z: Seq<char>,
    x: Seq<char>,
    y: Seq<char>,
    name: String,
)
    requires
        are_numerals_of(coords, z, x, y),
        call_ensures(TerrariumCoords::file_name, (&coords,), name),
    ensures
        name@ == "terrain_cache/"@ + z + "_"@ + x + "_"@ + y + ".webp"@,
{
    lemma_file_name_by_numerals(coords, z, x, y);
}

/// The file of a tile, by its numerals.
pub proof fn lemma_file_name_by_numerals(
    coords: TerrariumCoords,
    z: Seq<char>,
    x: Seq<char>,
    y: Seq<char>,
)
    requires
        are_numerals_of(coords, z, x, y),
    ensures
        coords.spec_file_name() == "terrain_cache/"@ + z + "_"@ + x + "_"@ + y + ".webp"@,
{
    lemma_spelled_by_numerals(coords, '_', z, x, y);
    reveal_strlit("_");
    assert("_"@ =~= seq!['_']);
    assert(coords.spec_file_name() =~= "terrain_cache/"@ + z + "_"@ + x + "_"@ + y + ".webp"@);
}

/// The warning for a tile names it by its zoom level, column and row, and ends with the reason.
pub proof fn law_warning_names_tile_and_reason(
    coords: TerrariumCoords,
    error: &str,
    z: Seq<char>,
    x: Seq<char>,
    y: Seq<char>,
    message: String,
)
    requires
        are_numerals_of(coords, z, x, y),
        call_ensures(TerrariumCoords::missing, (&coords, error), message),
    ensures
        message@ == "Missing tile "@ + z + "/"@ + x + "/"@ + y + ": "@ + error@,
{
    lemma_missing_by_numerals(coords, error@, z, x, y);
}

/// The warning for a tile, by its numerals.
pub proof fn lemma_missing_by_numerals(
    coords: TerrariumCoords,
    error: Seq<char>,
    z: Seq<char>,
    x: Seq<char>,
    y: Seq<char>,
)
    requires
        are_numerals_of(coords, z, x, y),
    ensures
        coords.spec_missing(error) == "Missing tile "@ + z + "/"@ + x + "/"@ + y + ": "@ + error,
{
    lemma_spelled_by_numerals(coords, '/', z, x, y);
    reveal_strlit("/");
    assert("/"@ =~= seq!['/']);
    assert(coords.spec_missing(error) =~= "Missing tile "@ + z + "/"@ + x + "/"@ + y + ": "@
        + error);
}

/// The report of a refusal names the address that was asked and ends with the status, and says nothing
/// else but what it always says.
pub proof fn law_refusal_names_address_and_status(url: &str, status: &str, message: String)
    requires
        call_ensures(refusal, (url, status), message),
    ensures
        message@.len() == 20 + url@.len() + 14 + status@.len(),
        message@.take(20) == "Server responded to "@,
        message@.skip(20).take(url@.len() as int) == url@,
        message@.skip((20 + url@.len()) as int).take(14) == " with status: "@,
        message@.skip((20 + url@.len() + 14) as int) == status@,
{
    reveal_strlit("Server responded to ");
    reveal_strlit(" with status: ");
    assert("Server responded to "@.len() == 20);
    assert(" with status: "@.len() == 14);
    assert(message@.take(20) =~= "Server responded to "@);
    assert(message@.skip(20).take(url@.len() as int) =~= url@);
    assert(message@.skip((20 + url@.len()) as int).take(14) =~= " with status: "@);
    assert(message@.skip((20 + url@.len() + 14) as int) =~= status@);
}

/// No two tiles share a file.
pub proof fn law_file_name_injective(c: TerrariumCoords, d: TerrariumCoords)
    requires
        c.spec_file_name() == d.spec_file_name(),
    ensures
        c == d,
{
    lemma_trim("terrain_cache/"@, spelled(c, '_'), spelled(d, '_'), ".webp"@);
    law_spelled_injective(c, d, '_');
}

/// No two tiles share an address on the server.
pub proof fn law_url_injective(c: TerrariumCoords, d: TerrariumCoords)
    requires
        c.spec_url() == d.spec_url(),
    ensures
        c == d,
{
    lemma_trim("https://tiles.mapterhorn.com/"@, spelled(c, '/'), spelled(d, '/'), ".webp"@);
    law_spelled_injective(c, d, '/');
}

} // verus!
