//! Column selectors and their resolution against a table header.
use vstd::prelude::*;
use vstd::string::StrSliceExecFns;

verus! {

/// True for the ASCII digits `0` to `9`.
pub open spec fn is_digit(c: char) -> bool {
    '0' <= c && c <= '9'
}

/// The value of a digit.
pub open spec fn digit_value(c: char) -> nat {
    (c as nat - '0' as nat) as nat
}

/// The decimal value of a string of digits, read left to right.
pub open spec fn digits_value(s: Seq<char>) -> nat
    decreases s.len(),
{
    if s.len() == 0 {
        0
    } else {
        digits_value(s.drop_last()) * 10 + digit_value(s.last())
    }
}

/// The digits of an index selector: an optional leading `+` is dropped.
pub open spec fn index_digits(s: Seq<char>) -> Seq<char> {
    if s.len() > 0 && s[0] == '+' {
        s.drop_first()
    } else {
        s
    }
}

/// A selector read as an index: an optional `+` and one or more decimal
/// digits whose value fits in `usize`, as `usize`'s own parser accepts them.
pub open spec fn parsed_index(s: Seq<char>) -> Option<nat> {
    let d = index_digits(s);
    if d.len() > 0 && (forall|i: int| 0 <= i < d.len() ==> is_digit(#[trigger] d[i]))
        && digits_value(d) <= usize::MAX {
        Some(digits_value(d))
    } else {
        None
    }
}

/// `i` is the first position of `name` in `headers`.
pub open spec fn is_first_match(headers: Seq<Seq<char>>, name: Seq<char>, i: int) -> bool {
    &&& 0 <= i < headers.len()
    &&& headers[i] == name
    &&& forall|j: int| 0 <= j < i ==> headers[j] != name
}

/// The position of the first header equal to `name`, if any.
pub open spec fn header_position(headers: Seq<Seq<char>>, name: Seq<char>) -> Option<nat> {
    if exists|i: int| is_first_match(headers, name, i) {
        Some((choose|i: int| is_first_match(headers, name, i)) as nat)
    } else {
        None
    }
}

/// An input selector: its index where it reads as one, else the position of
/// the header it names.
pub open spec fn selector_position(headers: Seq<Seq<char>>, sel: Seq<char>) -> Option<nat> {
    match parsed_index(sel) {
        Some(n) => Some(n),
        None => header_position(headers, sel),
    }
}

/// The header names as character sequences.
pub open spec fn header_names(headers: Seq<String>) -> Seq<Seq<char>> {
    headers.map_values(|h: String| h@)
}

proof fn lemma_first_match_unique(headers: Seq<Seq<char>>, name: Seq<char>, i: int, k: int)
    requires
        is_first_match(headers, name, i),
        is_first_match(headers, name, k),
    ensures
        i == k,
{
}

proof fn lemma_digits_value_grows(d: Seq<char>, i: int, k: int)
    requires
        0 <= i <= k <= d.len(),
    ensures
        digits_value(d.take(i)) <= digits_value(d.take(k)),
    decreases k - i,
{
    if i < k {
        lemma_digits_value_grows(d, i, k - 1);
        assert(d.take(k).drop_last() =~= d.take(k - 1));
    }
}

/// Reads a selector as a column index: an optional `+` followed by decimal
/// digits whose value fits in `usize`.
pub fn parse_index(s: &str) -> (r: Option<usize>)
    ensures
        match r {
            Some(n) => parsed_index(s@) == Some(n as nat),
            None => parsed_index(s@) is None,
        },
{
    let len = s.unicode_len();
    let mut start: usize = 0;
    if len > 0 && s.get_char(0) == '+' {
        start = 1;
    }
    let ghost d = index_digits(s@);
    assert(d =~= s@.subrange(start as int, len as int));
    if start >= len {
        return None;
    }
    let mut acc: usize = 0;
    let mut i: usize = start;
    while i < len
        invariant
            start <= i <= len,
            len == s@.len(),
            d == index_digits(s@),
            d =~= s@.subrange(start as int, len as int),
            forall|j: int| 0 <= j < i - start ==> is_digit(#[trigger] d[j]),
            acc as nat == digits_value(d.take(i - start)),
        decreases len - i,
    {
        let c = s.get_char(i);
        assert(c == d[i - start]);
        if c < '0' || c > '9' {
            assert(!is_digit(d[i - start]));
            return None;
        }
        let dig: usize = (c as u32 - '0' as u32) as usize;
        assert(d.take(i - start + 1).drop_last() =~= d.take(i - start));
        if acc > (usize::MAX - dig) / 10 {
            proof {
                assert(digits_value(d.take(i - start + 1)) > usize::MAX) by (nonlinear_arith)
                    requires
                        acc > (usize::MAX - dig) / 10,
                        digits_value(d.take(i - start + 1)) == acc * 10 + dig,
                ;
                lemma_digits_value_grows(d, i - start + 1, d.len() as int);
                assert(d.take(d.len() as int) =~= d);
                assert(digits_value(d) > usize::MAX);
            }
            return None;
        }
        proof {
            assert(acc * 10 + dig <= usize::MAX) by (nonlinear_arith)
                requires
                    acc <= (usize::MAX - dig) / 10,
                    dig <= 9,
            ;
        }
        acc = acc * 10 + dig;
        i = i + 1;
    }
    assert(d.take(d.len() as int) =~= d);
    Some(acc)
}

/// The position of the first header equal to `name`.
pub fn find_header(headers: &Vec<String>, name: &String) -> (r: Option<usize>)
    ensures
        match r {
            Some(i) => header_position(header_names(headers@), name@) == Some(i as nat)
                && is_first_match(header_names(headers@), name@, i as int),
            None => header_position(header_names(headers@), name@) is None && forall|j: int|
                0 <= j < headers@.len() ==> #[trigger] headers@[j]@ != name@,
        },
{
    let ghost names = header_names(headers@);
    let mut i: usize = 0;
    while i < headers.len()
        invariant
            i <= headers@.len(),
            names == header_names(headers@),
            forall|j: int| 0 <= j < i ==> names[j] != name@,
            forall|j: int| 0 <= j < headers@.len() ==> names[j] == #[trigger] headers@[j]@,
        decreases headers@.len() - i,
    {
        if headers[i] == *name {
            proof {
                assert(names[i as int] == name@);
                assert(is_first_match(names, name@, i as int));
                let k = choose|k: int| is_first_match(names, name@, k);
                lemma_first_match_unique(names, name@, i as int, k);
            }
            return Some(i);
        }
        i = i + 1;
    }
    proof {
        assert forall|j: int| 0 <= j < headers@.len() implies #[trigger] headers@[j]@ != name@ by {
            assert(names[j] == headers@[j]@);
        }
        lemma_header_position_is_first_match(names, name@);
    }
    None
}

/// Resolves an input selector: a selector that reads as an index is that
/// index, whatever the header holds; any other names a header.
pub fn resolve_selector(headers: &Vec<String>, sel: &String) -> (r: Option<usize>)
    ensures
        match r {
            Some(i) => selector_position(header_names(headers@), sel@) == Some(i as nat),
            None => selector_position(header_names(headers@), sel@) is None,
        },
{
    match parse_index(sel.as_str()) {
        Some(n) => Some(n),
        None => find_header(headers, sel),
    }
}

/// The six logical columns of a geocoding run.
#[derive(Clone, Copy, Debug, PartialEq, Eq, Structural)]
pub enum Role {
    Street,
    Postalcode,
    City,
    Country,
    Lat,
    Lng,
}

/// The column selectors as the user gave them. The four input selectors are
/// an index or a header name; `lat` and `lng` are header names only.
#[derive(Clone, Debug)]
pub struct ColumnSelectors {
    pub street: String,
    pub postalcode: String,
    pub city: String,
    pub country: String,
    pub lat: String,
    pub lng: String,
}

/// The resolved zero-based positions of the six columns.
#[derive(Clone, Copy, Debug, PartialEq, Eq, Structural)]
pub struct Columns {
    pub street: usize,
    pub postalcode: usize,
    pub city: usize,
    pub country: usize,
    pub lat: usize,
    pub lng: usize,
}

/// Why a header could not be resolved.
#[derive(Clone, Debug)]
pub enum ColumnError {
    /// The selector for `role` names no column of the header.
    ColumnNotFound { role: Role, selector: String },
}

impl ColumnSelectors {
    /// The selector given for `role`.
    pub open spec fn selector(self, role: Role) -> Seq<char> {
        match role {
            Role::Street => self.street@,
            Role::Postalcode => self.postalcode@,
            Role::City => self.city@,
            Role::Country => self.country@,
            Role::Lat => self.lat@,
            Role::Lng => self.lng@,
        }
    }
}

impl Columns {
    /// The position resolved for `role`.
    pub open spec fn index(self, role: Role) -> usize {
        match role {
            Role::Street => self.street,
            Role::Postalcode => self.postalcode,
            Role::City => self.city,
            Role::Country => self.country,
            Role::Lat => self.lat,
            Role::Lng => self.lng,
        }
    }
}

/// The position that `role` resolves to: the output columns by header name
/// only, the input columns by index or header name.
pub open spec fn role_position(opts: ColumnSelectors, headers: Seq<Seq<char>>, role: Role) -> Option<nat> {
    match role {
        Role::Lat | Role::Lng => header_position(headers, opts.selector(role)),
        _ => selector_position(headers, opts.selector(role)),
    }
}

/// The first role, in the order street, postalcode, city, country, lat, lng,
/// whose selector does not resolve.
pub open spec fn first_unresolved(opts: ColumnSelectors, headers: Seq<Seq<char>>) -> Option<Role> {
    if role_position(opts, headers, Role::Street) is None {
        Some(Role::Street)
    } else if role_position(opts, headers, Role::Postalcode) is None {
        Some(Role::Postalcode)
    } else if role_position(opts, headers, Role::City) is None {
        Some(Role::City)
    } else if role_position(opts, headers, Role::Country) is None {
        Some(Role::Country)
    } else if role_position(opts, headers, Role::Lat) is None {
        Some(Role::Lat)
    } else if role_position(opts, headers, Role::Lng) is None {
        Some(Role::Lng)
    } else {
        None
    }
}

fn not_found(role: Role, selector: &String) -> (e: ColumnError)
    ensures
        e matches ColumnError::ColumnNotFound { role: r, selector: s } && r == role && s@ == selector@,
{
    ColumnError::ColumnNotFound { role, selector: selector.clone() }
}

impl Columns {
    /// Resolves every selector against the header. Fails on the first
    /// selector, in the order of the roles, that names no column.
    pub fn from_opts_and_header(opts: &ColumnSelectors, headers: &Vec<String>) -> (r: Result<
        Columns,
        ColumnError,
    >)
        ensures
            match r {
                Ok(c) => first_unresolved(*opts, header_names(headers@)) is None && forall|role: Role|
                    role_position(*opts, header_names(headers@), role) == Some(
                        #[trigger] c.index(role) as nat,
                    ),
                Err(ColumnError::ColumnNotFound { role, selector }) => first_unresolved(
                    *opts,
                    header_names(headers@),
                ) == Some(role) && selector@ == opts.selector(role),
            },
    {
        let street = match resolve_selector(headers, &opts.street) {
            Some(i) => i,
            None => return Err(not_found(Role::Street, &opts.street)),
        };
        let postalcode = match resolve_selector(headers, &opts.postalcode) {
            Some(i) => i,
            None => return Err(not_found(Role::Postalcode, &opts.postalcode)),
        };
        let city = match resolve_selector(headers, &opts.city) {
            Some(i) => i,
            None => return Err(not_found(Role::City, &opts.city)),
        };
        let country = match resolve_selector(headers, &opts.country) {
            Some(i) => i,
            None => return Err(not_found(Role::Country, &opts.country)),
        };
        let lat = match find_header(headers, &opts.lat) {
            Some(i) => i,
            None => return Err(not_found(Role::Lat, &opts.lat)),
        };
        let lng = match find_header(headers, &opts.lng) {
            Some(i) => i,
            None => return Err(not_found(Role::Lng, &opts.lng)),
        };
        let c = Columns { street, postalcode, city, country, lat, lng };
        assert forall|role: Role|
            role_position(*opts, header_names(headers@), role) == Some(
                #[trigger] c.index(role) as nat,
            ) by {
            match role {
                Role::Street => {},
                Role::Postalcode => {},
                Role::City => {},
                Role::Country => {},
                Role::Lat => {},
                Role::Lng => {},
            }
        }
        Ok(c)
    }
}

/// A selector made only of decimal digits, whose value fits in `usize`,
/// resolves to that value, whatever the header holds (also where a header
/// with that very text exists).
pub proof fn lemma_numeric_selector_is_index(headers: Seq<Seq<char>>, sel: Seq<char>)
    requires
        sel.len() > 0,
        forall|i: int| 0 <= i < sel.len() ==> is_digit(#[trigger] sel[i]),
        digits_value(sel) <= usize::MAX,
    ensures
        selector_position(headers, sel) == Some(digits_value(sel)),
{
    assert(is_digit(sel[0]));
    assert(index_digits(sel) == sel);
}

/// The position of a name in a header is that of the first header equal to
/// it, and there is none where no header equals it.
pub proof fn lemma_header_position_is_first_match(headers: Seq<Seq<char>>, name: Seq<char>)
    ensures
        match header_position(headers, name) {
            Some(i) => is_first_match(headers, name, i as int),
            None => forall|j: int| 0 <= j < headers.len() ==> headers[j] != name,
        },
{
    if exists|i: int| is_first_match(headers, name, i) {
        let i = choose|i: int| is_first_match(headers, name, i);
        assert(is_first_match(headers, name, i));
    } else {
        assert forall|j: int| 0 <= j < headers.len() implies headers[j] != name by {
            if headers[j] == name {
                lemma_some_match_has_first(headers, name, j);
            }
        }
    }
}

/// A selector that does not read as an index resolves to the position of the
/// first header equal to it, and to nothing where no header equals it.
pub proof fn lemma_name_selector_is_header_match(headers: Seq<Seq<char>>, sel: Seq<char>)
    requires
        parsed_index(sel) is None,
    ensures
        selector_position(headers, sel) == header_position(headers, sel),
        match selector_position(headers, sel) {
            Some(i) => is_first_match(headers, sel, i as int),
            None => forall|j: int| 0 <= j < headers.len() ==> headers[j] != sel,
        },
{
    lemma_header_position_is_first_match(headers, sel);
}

proof fn lemma_some_match_has_first(headers: Seq<Seq<char>>, name: Seq<char>, j: int)
    requires
        0 <= j < headers.len(),
        headers[j] == name,
    ensures
        exists|i: int| is_first_match(headers, name, i),
    decreases j,
{
    if forall|k: int| 0 <= k < j ==> headers[k] != name {
        assert(is_first_match(headers, name, j));
    } else {
        let k = choose|k: int| 0 <= k < j && headers[k] == name;
        lemma_some_match_has_first(headers, name, k);
    }
}

} // verus!
