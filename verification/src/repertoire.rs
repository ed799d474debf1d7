//! The repertoire items of the Unicode character database, reduced to
//! plain values: an element tag, its attributes (the enclosing group's
//! merged with the element's own, later entries overriding earlier
//! ones), and its name aliases. The one decision made over an item at
//! build time — which codepoint range it covers — lives here.
use vstd::prelude::*;

use crate::cmdline::hex_seq_val;
use crate::cmdline::is_hex_digit_char;

verus! {

/// An alternative name of a character.
#[derive(Debug)]
pub struct NameAlias {
    pub alias: String,
    pub type_: String,
}

/// One repertoire element with its merged attributes.
#[derive(Debug)]
pub struct RepertoireItem {
    pub tag: String,
    pub attrs: Vec<(String, String)>,
    pub name_aliases: Vec<NameAlias>,
}

/// Why no codepoint range could be read off an item.
#[derive(Clone, Copy, Debug, PartialEq, Eq)]
pub enum RangeError {
    /// Neither a `cp` nor a `first-cp` attribute is present.
    MissingCodepoint,
    /// An attribute that should hold a hexadecimal number does not, or
    /// its value does not fit in 32 bits.
    BadNumber,
}

/// The views of an attribute list.
pub open spec fn attrs_view(a: Seq<(String, String)>) -> Seq<(Seq<char>, Seq<char>)> {
    a.map_values(|p: (String, String)| (p.0@, p.1@))
}

/// Whether some entry of `m` carries key `k`.
pub open spec fn assoc_has(m: Seq<(Seq<char>, Seq<char>)>, k: Seq<char>) -> bool {
    exists|i: int| 0 <= i < m.len() && m[i].0 == k
}

/// The value of the last entry of `m` carrying key `k`: the attribute
/// lists merge group and element attributes with later entries
/// overriding earlier ones.
pub open spec fn assoc_get(m: Seq<(Seq<char>, Seq<char>)>, k: Seq<char>) -> Seq<char>
    decreases m.len(),
{
    if m.len() == 0 {
        Seq::empty()
    } else if m.last().0 == k {
        m.last().1
    } else {
        assoc_get(m.drop_last(), k)
    }
}

/// The digits of `s` after an optional leading `+`.
pub open spec fn strip_plus(s: Seq<char>) -> Seq<char> {
    if s.len() > 0 && s[0] == '+' {
        s.drop_first()
    } else {
        s
    }
}

/// Whether `s` parses as a 32-bit hexadecimal number the way std's
/// `from_str_radix` reads one: an optional leading `+`, then at least
/// one hexadecimal digit, and a value below `2^32`.
pub open spec fn hex_parse_ok(s: Seq<char>) -> bool {
    &&& strip_plus(s).len() > 0
    &&& forall|i: int|
        0 <= i < strip_plus(s).len() ==> is_hex_digit_char(#[trigger] strip_plus(s)[i])
    &&& hex_seq_val(strip_plus(s)) < 0x100000000
}

/// The value `s` parses to.
pub open spec fn hex_parse_val(s: Seq<char>) -> int {
    hex_seq_val(strip_plus(s))
}

/// The codepoint range of an attribute list: the `cp` attribute, or
/// failing that `first-cp`, gives the start; `last_cp` gives the end
/// where present, else the range is a single codepoint.
pub open spec fn range_spec(m: Seq<(Seq<char>, Seq<char>)>) -> Result<(int, int), RangeError> {
    if !assoc_has(m, "cp"@) && !assoc_has(m, "first-cp"@) {
        Err(RangeError::MissingCodepoint)
    } else {
        let start_str = if assoc_has(m, "cp"@) {
            assoc_get(m, "cp"@)
        } else {
            assoc_get(m, "first-cp"@)
        };
        if !hex_parse_ok(start_str) {
            Err(RangeError::BadNumber)
        } else if assoc_has(m, "last_cp"@) {
            if !hex_parse_ok(assoc_get(m, "last_cp"@)) {
                Err(RangeError::BadNumber)
            } else {
                Ok((hex_parse_val(start_str), hex_parse_val(assoc_get(m, "last_cp"@))))
            }
        } else {
            Ok((hex_parse_val(start_str), hex_parse_val(start_str)))
        }
    }
}

/// An entry whose key matches and is the last such entry is the one
/// that [`assoc_get`] yields.
proof fn lemma_assoc_get_at(m: Seq<(Seq<char>, Seq<char>)>, k: Seq<char>, j: int)
    requires
        0 <= j < m.len(),
        m[j].0 == k,
        forall|l: int| j < l < m.len() ==> m[l].0 != k,
    ensures
        assoc_has(m, k),
        assoc_get(m, k) == m[j].1,
    decreases m.len(),
{
    if j == m.len() - 1 {
    } else {
        assert(m.last().0 != k);
        assert(m.drop_last()[j].0 == k);
        lemma_assoc_get_at(m.drop_last(), k, j);
    }
}

/// Whether two strings hold the same characters.
fn str_eq(a: &str, b: &str) -> (r: bool)
    ensures
        r == (a@ == b@),
{
    let n = a.unicode_len();
    if n != b.unicode_len() {
        return false;
    }
    let mut i: usize = 0;
    while i < n
        invariant
            i <= n,
            n == a@.len(),
            n == b@.len(),
            forall|j: int| 0 <= j < i ==> a@[j] == b@[j],
        decreases n - i,
    {
        if a.get_char(i) != b.get_char(i) {
            return false;
        }
        i += 1;
    }
    proof {
        assert(a@ =~= b@);
    }
    true
}

/// The last attribute carrying `key`, if any: lists merge with later
/// entries overriding earlier ones, so the scan runs from the end.
fn assoc_lookup(attrs: &Vec<(String, String)>, key: &str) -> (r: Option<String>)
    ensures
        match r {
            Some(v) => {
                &&& assoc_has(attrs_view(attrs@), key@)
                &&& v@ == assoc_get(attrs_view(attrs@), key@)
            },
            None => !assoc_has(attrs_view(attrs@), key@),
        },
{
    let mut i: usize = attrs.len();
    while i > 0
        invariant
            i <= attrs@.len(),
            forall|j: int| i <= j < attrs@.len() ==> attrs_view(attrs@)[j].0 != key@,
        decreases i,
    {
        i -= 1;
        if str_eq(attrs[i].0.as_str(), key) {
            proof {
                lemma_assoc_get_at(attrs_view(attrs@), key@, i as int);
            }
            return Some(attrs[i].1.clone());
        }
    }
    None
}

/// A hexadecimal digit's value is between 0 and 15.
proof fn lemma_hex_char_val_bounds(c: char)
    requires
        is_hex_digit_char(c),
    ensures
        0 <= crate::cmdline::hex_char_val(c) < 16,
{
}

/// Reading one more digit can only grow the value.
proof fn lemma_hex_prefix_le(s: Seq<char>, k: int)
    requires
        forall|i: int| 0 <= i < s.len() ==> is_hex_digit_char(#[trigger] s[i]),
        0 <= k <= s.len(),
    ensures
        0 <= hex_seq_val(s.take(k)) <= hex_seq_val(s),
    decreases s.len() - k,
{
    lemma_hex_nonneg(s.take(k));
    if k == s.len() {
        assert(s.take(k) =~= s);
    } else {
        lemma_hex_prefix_le(s, k + 1);
        assert(s.take(k + 1).drop_last() =~= s.take(k));
        lemma_hex_char_val_bounds(s[k]);
        lemma_hex_nonneg(s.take(k));
    }
}

/// A string of hexadecimal digits has a nonnegative value.
proof fn lemma_hex_nonneg(s: Seq<char>)
    requires
        forall|i: int| 0 <= i < s.len() ==> is_hex_digit_char(#[trigger] s[i]),
    ensures
        hex_seq_val(s) >= 0,
    decreases s.len(),
{
    if s.len() > 0 {
        lemma_hex_nonneg(s.drop_last());
        lemma_hex_char_val_bounds(s.last());
    }
}

/// Parse a 32-bit hexadecimal number the way std's `from_str_radix`
/// reads one: `None` exactly when the string has no digits, has a
/// character that is no hexadecimal digit, or names a value of 33 bits
/// or more.
#[verifier::rlimit(50)]
fn parse_hex_u32(s: &str) -> (r: Option<u32>)
    ensures
        match r {
            Some(v) => hex_parse_ok(s@) && v == hex_parse_val(s@),
            None => !hex_parse_ok(s@),
        },
{
    let n = s.unicode_len();
    if n == 0 {
        return None;
    }
    let first: usize = if s.get_char(0) == '+' {
        1
    } else {
        0
    };
    if n == first {
        return None;
    }
    let ghost t = strip_plus(s@);
    proof {
        assert(t =~= s@.subrange(first as int, n as int));
        assert(t == s@.subrange(first as int, n as int));
    }
    let mut v: u32 = 0;
    let mut i: usize = first;
    while i < n
        invariant
            first <= i <= n,
            n == s@.len(),
            first <= 1,
            t == strip_plus(s@),
            t == s@.subrange(first as int, n as int),
            forall|j: int| 0 <= j < i - first ==> is_hex_digit_char(#[trigger] t[j]),
            v == hex_seq_val(t.take(i - first)),
        decreases n - i,
    {
        let c = s.get_char(i);
        if !(('0' <= c && c <= '9') || ('a' <= c && c <= 'f') || ('A' <= c && c <= 'F')) {
            proof {
                assert(strip_plus(s@)[i - first] == c);
                assert(!is_hex_digit_char(c));
            }
            return None;
        }
        let d: u32 = if '0' <= c && c <= '9' {
            c as u32 - 48
        } else if 'a' <= c && c <= 'f' {
            c as u32 - 87
        } else {
            c as u32 - 55
        };
        let w: u64 = (v as u64) * 16 + (d as u64);
        proof {
            assert(t.take(i - first + 1).drop_last() =~= t.take(i - first));
            assert(t[i - first] == c);
            assert(strip_plus(s@)[i - first] == c);
            assert(t.take(i - first + 1).last() == c);
            assert(hex_seq_val(t.take(i - first + 1)) == hex_seq_val(t.take(i - first)) * 16
                + crate::cmdline::hex_char_val(c));
        }
        if w > 0xFFFFFFFF {
            proof {
                if hex_parse_ok(s@) {
                    lemma_hex_prefix_le(t, i - first + 1);
                }
            }
            return None;
        }
        v = w as u32;
        i += 1;
    }
    proof {
        assert(t.take(n - first) =~= t);
    }
    Some(v)
}

impl RepertoireItem {
    /// The codepoint range this item covers: the `cp` attribute (or,
    /// for a grouped range, `first-cp`) gives the start, `last_cp` the
    /// end where present. The errors name what was missing or
    /// malformed.
    pub fn get_codepoint_range(&self) -> (r: Result<(u32, u32), RangeError>)
        ensures
            match r {
                Ok(p) => range_spec(attrs_view(self.attrs@)) == Ok::<(int, int), RangeError>(
                    (p.0 as int, p.1 as int),
                ),
                Err(e) => range_spec(attrs_view(self.attrs@)) == Err::<(int, int), RangeError>(e),
            },
    {
        let start_str = match assoc_lookup(&self.attrs, "cp") {
            Some(v) => v,
            None => match assoc_lookup(&self.attrs, "first-cp") {
                Some(v) => v,
                None => {
                    return Err(RangeError::MissingCodepoint);
                },
            },
        };
        let start_cp = match parse_hex_u32(start_str.as_str()) {
            Some(v) => v,
            None => {
                return Err(RangeError::BadNumber);
            },
        };
        let end_cp = match assoc_lookup(&self.attrs, "last_cp") {
            Some(end_str) => match parse_hex_u32(end_str.as_str()) {
                Some(v) => v,
                None => {
                    return Err(RangeError::BadNumber);
                },
            },
            None => start_cp,
        };
        Ok((start_cp, end_cp))
    }
}


/// An XML event reduced to plain values: an opening or empty element
/// with its attributes in document order, a closing tag, or anything
/// else (text, comments), which carries no decision.
#[derive(Debug)]
pub enum UcdEvent {
    Start(String, Vec<(String, String)>),
    End(String),
    Other,
}

/// Why the repertoire walk stops with an error.
#[derive(Debug, PartialEq, Eq)]
pub enum ProcessError {
    /// A `name-alias` element outside of a char-like element.
    AliasOutsideItem,
    /// An attribute of `name-alias` whose key is neither `alias` nor
    /// `type`; carries that key.
    UnexpectedAttribute(String),
}

/// The walk's state between events: the finished items, the enclosing
/// group's attributes, and the item still being filled.
#[derive(Debug)]
pub struct RepertoireState {
    pub items: Vec<RepertoireItem>,
    pub group_attrs: Vec<(String, String)>,
    pub current: Option<RepertoireItem>,
}

/// Whether `tag` opens one repertoire item.
pub open spec fn is_item_tag(tag: Seq<char>) -> bool {
    ||| tag == "char"@
    ||| tag == "noncharacter"@
    ||| tag == "reserved"@
    ||| tag == "surrogate"@
}

/// Reading a `name-alias` element's attributes: `alias` and `type` set
/// the two fields, later entries overriding earlier ones; the first
/// attribute with any other key is an error carrying that key.
pub open spec fn alias_fold(
    m: Seq<(Seq<char>, Seq<char>)>,
    alias: Seq<char>,
    type_: Seq<char>,
) -> Result<(Seq<char>, Seq<char>), Seq<char>>
    decreases m.len(),
{
    if m.len() == 0 {
        Ok((alias, type_))
    } else if m[0].0 == "alias"@ {
        alias_fold(m.drop_first(), m[0].1, type_)
    } else if m[0].0 == "type"@ {
        alias_fold(m.drop_first(), alias, m[0].1)
    } else {
        Err(m[0].0)
    }
}

/// Everything one event does to the walk's state; `true` in the result
/// says the repertoire's closing tag was seen and the walk is over.
pub open spec fn step_post(
    state: RepertoireState,
    event: UcdEvent,
    r: Result<(RepertoireState, bool), ProcessError>,
) -> bool {
    match event {
        UcdEvent::Start(tag, attrs) => {
            if tag@ == "group"@ {
                match r {
                    Ok(p) => {
                        &&& !p.1
                        &&& p.0.items == state.items
                        &&& p.0.group_attrs@ == state.group_attrs@ + attrs@
                        &&& p.0.current == state.current
                    },
                    Err(_) => false,
                }
            } else if is_item_tag(tag@) {
                match r {
                    Ok(p) => {
                        &&& !p.1
                        &&& p.0.items@ == (match state.current {
                            Some(it) => state.items@.push(it),
                            None => state.items@,
                        })
                        &&& p.0.group_attrs@ == state.group_attrs@
                        &&& (match p.0.current {
                            Some(c) => {
                                &&& c.tag == tag
                                &&& c.attrs@ == state.group_attrs@ + attrs@
                                &&& c.name_aliases@.len() == 0
                            },
                            None => false,
                        })
                    },
                    Err(_) => false,
                }
            } else if tag@ == "name-alias"@ {
                match state.current {
                    None => r == Err::<(RepertoireState, bool), ProcessError>(
                        ProcessError::AliasOutsideItem,
                    ),
                    Some(cur) => match alias_fold(attrs_view(attrs@), ""@, ""@) {
                        Ok(p) => match r {
                            Ok(q) => {
                                &&& !q.1
                                &&& q.0.items == state.items
                                &&& q.0.group_attrs@ == state.group_attrs@
                                &&& (match q.0.current {
                                    Some(c) => {
                                        &&& c.tag == cur.tag
                                        &&& c.attrs@ == cur.attrs@
                                        &&& c.name_aliases@.len() == cur.name_aliases@.len() + 1
                                        &&& c.name_aliases@.subrange(
                                            0,
                                            cur.name_aliases@.len() as int,
                                        ) == cur.name_aliases@
                                        &&& c.name_aliases@.last().alias@ == p.0
                                        &&& c.name_aliases@.last().type_@ == p.1
                                    },
                                    None => false,
                                })
                            },
                            Err(_) => false,
                        },
                        Err(k) => match r {
                            Err(ProcessError::UnexpectedAttribute(kk)) => kk@ == k,
                            Err(ProcessError::AliasOutsideItem) => false,
                            Ok(_) => false,
                        },
                    },
                }
            } else {
                match r {
                    Ok(p) => !p.1 && p.0.items == state.items && p.0.group_attrs
                        == state.group_attrs && p.0.current == state.current,
                    Err(_) => false,
                }
            }
        },
        UcdEvent::End(tag) => {
            if tag@ == "repertoire"@ {
                match r {
                    Ok(p) => p.1 && p.0.items == state.items && p.0.group_attrs
                        == state.group_attrs && p.0.current == state.current,
                    Err(_) => false,
                }
            } else if tag@ == "group"@ {
                match r {
                    Ok(p) => {
                        &&& !p.1
                        &&& p.0.items == state.items
                        &&& p.0.group_attrs@.len() == 0
                        &&& p.0.current == state.current
                    },
                    Err(_) => false,
                }
            } else {
                match r {
                    Ok(p) => !p.1 && p.0.items == state.items && p.0.group_attrs
                        == state.group_attrs && p.0.current == state.current,
                    Err(_) => false,
                }
            }
        },
        UcdEvent::Other => match r {
            Ok(p) => !p.1 && p.0.items == state.items && p.0.group_attrs == state.group_attrs
                && p.0.current == state.current,
            Err(_) => false,
        },
    }
}

impl RepertoireState {
    /// The state before any event: nothing read yet.
    pub fn new() -> (s: RepertoireState)
        ensures
            s.items@.len() == 0,
            s.group_attrs@.len() == 0,
            s.current is None,
    {
        RepertoireState { items: Vec::new(), group_attrs: Vec::new(), current: None }
    }
}

/// Feed one event to the repertoire walk. This is the decision step of
/// reading the character database: the XML itself is read elsewhere
/// and handed in as plain values.
pub fn process_event(state: RepertoireState, event: UcdEvent) -> (r: Result<
    (RepertoireState, bool),
    ProcessError,
>)
    ensures
        step_post(state, event, r),
{
    let RepertoireState { mut items, mut group_attrs, current } = state;
    match event {
        UcdEvent::Start(tag, mut attrs) => {
            if str_eq(tag.as_str(), "group") {
                group_attrs.append(&mut attrs);
                Ok((RepertoireState { items, group_attrs, current }, false))
            } else if str_eq(tag.as_str(), "char") || str_eq(tag.as_str(), "noncharacter")
                || str_eq(tag.as_str(), "reserved") || str_eq(tag.as_str(), "surrogate") {
                if let Some(it) = current {
                    items.push(it);
                }
                let mut merged: Vec<(String, String)> = Vec::new();
                let mut i: usize = 0;
                while i < group_attrs.len()
                    invariant
                        i <= group_attrs@.len(),
                        merged@ == group_attrs@.take(i as int),
                    decreases group_attrs@.len() - i,
                {
                    let pair = &group_attrs[i];
                    merged.push((pair.0.clone(), pair.1.clone()));
                    proof {
                        assert(merged@ =~= group_attrs@.take(i as int + 1));
                    }
                    i += 1;
                }
                proof {
                    assert(group_attrs@.take(group_attrs@.len() as int) =~= group_attrs@);
                }
                merged.append(&mut attrs);
                let cur = RepertoireItem { tag, attrs: merged, name_aliases: Vec::new() };
                Ok((RepertoireState { items, group_attrs, current: Some(cur) }, false))
            } else if str_eq(tag.as_str(), "name-alias") {
                match current {
                    None => Err(ProcessError::AliasOutsideItem),
                    Some(mut cur) => {
                        proof {
                            reveal_strlit("");
                        }
                        let ghost m = attrs_view(attrs@);
                        let mut alias = String::new();
                        let mut type_ = String::new();
                        let mut i: usize = 0;
                        proof {
                            assert(m.skip(0) =~= m);
                            assert(alias@ =~= ""@);
                            assert(type_@ =~= ""@);
                        }
                        while i < attrs.len()
                            invariant
                                i <= attrs@.len(),
                                m == attrs_view(attrs@),
                                alias_fold(m, ""@, ""@) == alias_fold(
                                    m.skip(i as int),
                                    alias@,
                                    type_@,
                                ),
                                event == UcdEvent::Start(tag, attrs),
                                tag@ != "group"@,
                                !is_item_tag(tag@),
                                tag@ == "name-alias"@,
                                state.current is Some,
                            decreases attrs@.len() - i,
                        {
                            proof {
                                assert(m.skip(i as int)[0] == m[i as int]);
                                assert(m[i as int] == (attrs@[i as int].0@, attrs@[i as int].1@));
                                assert(m.skip(i as int).drop_first() =~= m.skip(i as int + 1));
                            }
                            let key = &attrs[i].0;
                            if str_eq(key.as_str(), "alias") {
                                alias = attrs[i].1.clone();
                            } else if str_eq(key.as_str(), "type") {
                                type_ = attrs[i].1.clone();
                            } else {
                                return Err(ProcessError::UnexpectedAttribute(attrs[i].0.clone()));
                            }
                            i += 1;
                        }
                        proof {
                            assert(m.skip(attrs@.len() as int) =~= Seq::<(
                                Seq<char>,
                                Seq<char>,
                            )>::empty());
                            assert(alias_fold(
                                Seq::<(Seq<char>, Seq<char>)>::empty(),
                                alias@,
                                type_@,
                            ) == Ok::<(Seq<char>, Seq<char>), Seq<char>>((alias@, type_@)));
                        }
                        let ghost old_aliases = cur.name_aliases@;
                        cur.name_aliases.push(NameAlias { alias, type_ });
                        proof {
                            assert(cur.name_aliases@.subrange(
                                0,
                                old_aliases.len() as int,
                            ) =~= old_aliases);
                        }
                        Ok((RepertoireState { items, group_attrs, current: Some(cur) }, false))
                    },
                }
            } else {
                Ok((RepertoireState { items, group_attrs, current }, false))
            }
        },
        UcdEvent::End(tag) => {
            if str_eq(tag.as_str(), "repertoire") {
                Ok((RepertoireState { items, group_attrs, current }, true))
            } else if str_eq(tag.as_str(), "group") {
                group_attrs.clear();
                Ok((RepertoireState { items, group_attrs, current }, false))
            } else {
                Ok((RepertoireState { items, group_attrs, current }, false))
            }
        },
        UcdEvent::Other => Ok((RepertoireState { items, group_attrs, current }, false)),
    }
}

/// End the walk: a still-open item joins the finished ones.
pub fn finish_repertoire(state: RepertoireState) -> (items: Vec<RepertoireItem>)
    ensures
        items@ == (match state.current {
            Some(it) => state.items@.push(it),
            None => state.items@,
        }),
{
    let RepertoireState { mut items, group_attrs: _, current } = state;
    if let Some(it) = current {
        items.push(it);
    }
    items
}

} // verus!
