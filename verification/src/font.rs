use vstd::prelude::*;

verus! {

/// Height in pixel rows of every glyph raster in the fixed font table.
pub const CHAR_RASTER_HEIGHT: usize = 16;

/// Width in pixels of every glyph raster in the fixed font table.
pub const CHAR_RASTER_WIDTH: usize = 7;

/// Pixel rows inserted between two lines of text.
pub const LINE_SPACING: usize = 2;

/// Pixels inserted after each rendered glyph.
pub const LETTER_SPACING: usize = 0;

/// Blank margin kept around the rendered text.
pub const BORDER_PADDING: usize = 1;

/// The designated replacement for characters the font table does not hold.
pub const BACKUP_CHAR: char = '\u{FFFD}';

/// The glyph raster the font table holds for a character, as rows of
/// per-pixel intensity bytes, or `None` where the table has no entry.
/// The table is static, so the entry depends on the character alone.
pub uninterp spec fn font_raster(c: char) -> Option<Seq<Seq<u8>>>;

/// Relies on `noto_sans_mono_bitmap::get_raster` (regular weight, raster
/// height 16) and on `RasterizedChar::raster`: the lookup into a static
/// table whose result depends on the character alone; every entry there
/// is 16 rows of 7 intensity bytes (`RASTER_HEIGHT`/`RASTER_WIDTH` of the
/// regular size-16 table), and the table holds the replacement character
/// U+FFFD.
#[verifier::external_body]
fn raster_lookup(c: char) -> (r: Option<Vec<Vec<u8>>>)
    ensures
        r is Some <==> font_raster(c) is Some,
        r is Some ==> ({
            &&& font_raster(c) == Some(r.unwrap()@.map_values(|row: Vec<u8>| row@))
            &&& r.unwrap()@.len() == CHAR_RASTER_HEIGHT
            &&& forall|i: int|
                0 <= i < r.unwrap()@.len() ==> (#[trigger] r.unwrap()@[i])@.len()
                    == CHAR_RASTER_WIDTH
        }),
        c == BACKUP_CHAR ==> r is Some,
{
    noto_sans_mono_bitmap::get_raster(
        c,
        noto_sans_mono_bitmap::FontWeight::Regular,
        noto_sans_mono_bitmap::RasterHeight::Size16,
    )
    .map(|g| g.raster().iter().map(|row| row.to_vec()).collect())
}

/// The raster the renderer draws for a character: the table's own entry,
/// or the replacement glyph where the table has none.
pub open spec fn raster_of(c: char) -> Seq<Seq<u8>> {
    match font_raster(c) {
        Some(rows) => rows,
        None => font_raster(BACKUP_CHAR).unwrap(),
    }
}

/// Looks up the glyph raster for `c`, substituting the replacement glyph
/// for characters missing from the table. The replacement glyph itself is
/// guaranteed present, so the lookup is total.
pub fn get_char_raster(c: char) -> (r: Vec<Vec<u8>>)
    ensures
        r@.map_values(|row: Vec<u8>| row@) == raster_of(c),
        r@.len() == CHAR_RASTER_HEIGHT,
        forall|i: int| 0 <= i < r@.len() ==> (#[trigger] r@[i])@.len() == CHAR_RASTER_WIDTH,
{
    let direct = raster_lookup(c);
    if let Some(rows) = direct {
        rows
    } else {
        let fallback = raster_lookup(BACKUP_CHAR);
        fallback.unwrap()
    }
}

} // verus!
