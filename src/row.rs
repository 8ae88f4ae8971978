//! Building the search query of a row and writing the coordinates into it.
use vstd::prelude::*;
use crate::columns::Columns;

verus! {

/// The field at `i`, or the empty text where the row is shorter.
pub open spec fn field_at(record: Seq<String>, i: int) -> Seq<char> {
    if 0 <= i < record.len() {
        record[i]@
    } else {
        Seq::empty()
    }
}

/// The fields of a row as character sequences.
pub open spec fn row_fields(record: Seq<String>) -> Seq<Seq<char>> {
    record.map_values(|f: String| f@)
}

/// The field at `i` of the output row: the longitude at the longitude
/// column, the latitude at the latitude column, the input field elsewhere.
/// Where both columns are one, the longitude is written last and stays.
pub open spec fn filled_field(
    record: Seq<Seq<char>>,
    columns: Columns,
    lat: Seq<char>,
    lng: Seq<char>,
    i: int,
) -> Seq<char> {
    if i == columns.lng {
        lng
    } else if i == columns.lat {
        lat
    } else {
        record[i]
    }
}

/// The output row for an input row and the coordinates found for it.
pub open spec fn filled_row(
    record: Seq<Seq<char>>,
    columns: Columns,
    lat: Seq<char>,
    lng: Seq<char>,
) -> Seq<Seq<char>> {
    Seq::new(record.len(), |i: int| filled_field(record, columns, lat, lng, i))
}

/// The field at `i`, or an empty string where the row is shorter.
pub fn field_or_empty(record: &Vec<String>, i: usize) -> (r: String)
    ensures
        r@ == field_at(record@, i as int),
{
    if i < record.len() {
        record[i].clone()
    } else {
        String::new()
    }
}

/// The header of the output table: the input header, unchanged.
pub fn output_header(headers: &Vec<String>) -> (r: Vec<String>)
    ensures
        r@.len() == headers@.len(),
        row_fields(r@) == row_fields(headers@),
{
    let mut out: Vec<String> = Vec::new();
    let mut i: usize = 0;
    while i < headers.len()
        invariant
            i <= headers@.len(),
            out@.len() == i,
            forall|j: int| 0 <= j < i ==> #[trigger] out@[j]@ == headers@[j]@,
        decreases headers@.len() - i,
    {
        out.push(headers[i].clone());
        i = i + 1;
    }
    assert(row_fields(out@) =~= row_fields(headers@));
    out
}

/// Copies a row, writing the latitude and the longitude into their columns.
pub fn fill_coordinates(record: &Vec<String>, columns: &Columns, lat: &String, lng: &String) -> (r:
    Vec<String>)
    ensures
        r@.len() == record@.len(),
        row_fields(r@) == filled_row(row_fields(record@), *columns, lat@, lng@),
{
    let ghost fields = row_fields(record@);
    let mut out: Vec<String> = Vec::new();
    let mut i: usize = 0;
    while i < record.len()
        invariant
            i <= record@.len(),
            fields == row_fields(record@),
            out@.len() == i,
            forall|j: int|
                0 <= j < i ==> #[trigger] out@[j]@ == filled_field(fields, *columns, lat@, lng@, j),
        decreases record@.len() - i,
    {
        if i == columns.lng {
            out.push(lng.clone());
        } else if i == columns.lat {
            out.push(lat.clone());
        } else {
            out.push(record[i].clone());
        }
        i = i + 1;
    }
    assert(row_fields(out@) =~= filled_row(fields, *columns, lat@, lng@));
    out
}

/// An output row has as many fields as its input row.
pub proof fn lemma_filled_row_keeps_length(
    record: Seq<Seq<char>>,
    columns: Columns,
    lat: Seq<char>,
    lng: Seq<char>,
)
    ensures
        filled_row(record, columns, lat, lng).len() == record.len(),
{
}

/// Every field of an output row outside the latitude and longitude columns
/// is the input field at the same position.
pub proof fn lemma_filled_row_keeps_other_fields(
    record: Seq<Seq<char>>,
    columns: Columns,
    lat: Seq<char>,
    lng: Seq<char>,
    i: int,
)
    requires
        0 <= i < record.len(),
        i != columns.lat,
        i != columns.lng,
    ensures
        filled_row(record, columns, lat, lng)[i] == record[i],
{
}

/// The latitude and longitude columns of an output row hold the coordinates;
/// where both columns are one, it holds the longitude.
pub proof fn lemma_filled_row_coordinates(
    record: Seq<Seq<char>>,
    columns: Columns,
    lat: Seq<char>,
    lng: Seq<char>,
)
    ensures
        columns.lng < record.len() ==> filled_row(record, columns, lat, lng)[columns.lng as int]
            == lng,
        columns.lat < record.len() && columns.lat != columns.lng ==> filled_row(
            record,
            columns,
            lat,
            lng,
        )[columns.lat as int] == lat,
{
}

/// The query sent for one row.
#[derive(Clone, Debug)]
pub struct SearchQuery {
    pub key: String,
    pub street: String,
    pub postalcode: String,
    pub city: String,
    pub country: String,
    pub format: String,
}

impl SearchQuery {
    /// The query for a row: the address fields at the resolved columns,
    /// empty where the row is shorter, the key, and the JSON format.
    pub fn from_record(key: &String, record: &Vec<String>, columns: &Columns) -> (r: SearchQuery)
        ensures
            r.key@ == key@,
            r.street@ == field_at(record@, columns.street as int),
            r.postalcode@ == field_at(record@, columns.postalcode as int),
            r.city@ == field_at(record@, columns.city as int),
            r.country@ == field_at(record@, columns.country as int),
            r.format@ == seq!['j', 's', 'o', 'n'],
    {
        let format = String::from_str("json");
        proof {
            reveal_strlit("json");
        }
        SearchQuery {
            key: key.clone(),
            street: field_or_empty(record, columns.street),
            postalcode: field_or_empty(record, columns.postalcode),
            city: field_or_empty(record, columns.city),
            country: field_or_empty(record, columns.country),
            format,
        }
    }

    /// The URL query parameters of the request, as name and value, in the
    /// order key, street, postalcode, city, country, format.
    pub fn params(&self) -> (r: Vec<(String, String)>)
        ensures
            r@.len() == 6,
            r@[0].0@ == "key"@ && r@[0].1@ == self.key@,
            r@[1].0@ == "street"@ && r@[1].1@ == self.street@,
            r@[2].0@ == "postalcode"@ && r@[2].1@ == self.postalcode@,
            r@[3].0@ == "city"@ && r@[3].1@ == self.city@,
            r@[4].0@ == "country"@ && r@[4].1@ == self.country@,
            r@[5].0@ == "format"@ && r@[5].1@ == self.format@,
    {
        let mut r: Vec<(String, String)> = Vec::new();
        r.push((String::from_str("key"), self.key.clone()));
        r.push((String::from_str("street"), self.street.clone()));
        r.push((String::from_str("postalcode"), self.postalcode.clone()));
        r.push((String::from_str("city"), self.city.clone()));
        r.push((String::from_str("country"), self.country.clone()));
        r.push((String::from_str("format"), self.format.clone()));
        r
    }
}

} // verus!
