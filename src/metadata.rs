//! The text of the metadata header, wrapped to the width of the sheet.
use vstd::prelude::*;
use vstd::string::StringExecFns;
use crate::capture::string_views;
use crate::models::MediaAttributes;
use crate::text::{chars_of, decimal, push_decimal, string_of};

verus! {

/// The lines that `textwrap::wrap` makes of `text` for `width` columns.
pub uninterp spec fn wrapped_lines(text: Seq<char>, width: nat) -> Seq<Seq<char>>;

/// Relies on `textwrap::wrap`: the lines of `text` wrapped to `width` columns.
#[verifier::external_body]
fn wrap_text(text: &str, width: usize) -> (r: Vec<String>)
    ensures
        string_views(r@) == wrapped_lines(text@, width as nat),
{
    textwrap::wrap(text, width).into_iter().map(|l| l.into_owned()).collect()
}

/// How far a wrapped first line of `n` characters advances through `len`
/// remaining ones: its length, but at least one and at most all.
pub open spec fn advance(n: nat, len: nat) -> nat {
    if n == 0 { 1 } else if n > len { len } else { n }
}

/// A header line cut into lines of at most `width` columns: the first line
/// that wrapping gives is kept, and wrapping goes on after it.
pub open spec fn wrap_line_spec(rest: Seq<char>, width: nat) -> Seq<Seq<char>>
    decreases rest.len(),
{
    if rest.len() == 0 {
        Seq::<Seq<char>>::empty()
    } else {
        let ls = wrapped_lines(rest, width);
        if ls.len() == 0 {
            seq![rest]
        } else {
            seq![ls[0]] + wrap_line_spec(rest.skip(advance(ls[0].len(), rest.len()) as int), width)
        }
    }
}

/// Each header line wrapped to its own width, one after the other.
pub open spec fn wrap_all_spec(lines: Seq<Seq<char>>, widths: Seq<usize>) -> Seq<Seq<char>>
    decreases lines.len(),
{
    if lines.len() == 0 || widths.len() < lines.len() {
        Seq::<Seq<char>>::empty()
    } else {
        wrap_all_spec(lines.drop_last(), widths.take(lines.len() - 1))
            + wrap_line_spec(lines.last(), widths[lines.len() - 1] as nat)
    }
}

/// The header: the file name, then its size, duration and display dimensions.
pub open spec fn metadata_template_spec(a: MediaAttributes) -> Seq<Seq<char>> {
    seq![
        a.filename@,
        "File size: "@ + a.size@,
        "Duration: "@ + a.duration@,
        "Dimensions: "@ + decimal(a.dimensions.display_width->0 as nat) + seq!['x']
            + decimal(a.dimensions.display_height->0 as nat),
    ]
}

/// The lines of the metadata header, before wrapping.
pub fn metadata_template(media_attributes: &MediaAttributes) -> (r: Vec<String>)
    requires
        media_attributes.dimensions.display_width is Some,
        media_attributes.dimensions.display_height is Some,
    ensures
        string_views(r@) == metadata_template_spec(*media_attributes),
{
    let mut lines: Vec<String> = Vec::new();
    lines.push(media_attributes.filename.clone());
    lines.push(String::from_str("File size: ").concat(media_attributes.size.as_str()));
    lines.push(String::from_str("Duration: ").concat(media_attributes.duration.as_str()));
    let mut dims = chars_of("Dimensions: ");
    match (media_attributes.dimensions.display_width, media_attributes.dimensions.display_height) {
        (Some(w), Some(h)) => {
            push_decimal(&mut dims, w as u64);
            dims.push('x');
            push_decimal(&mut dims, h as u64);
        },
        _ => {},
    }
    lines.push(string_of(&dims));
    let ghost t = metadata_template_spec(*media_attributes);
    assert(string_views(lines@)[0] == t[0]);
    assert(string_views(lines@)[1] == t[1]);
    assert(string_views(lines@)[2] == t[2]);
    assert(dims@ =~= t[3]);
    assert(string_views(lines@)[3] == t[3]);
    assert(string_views(lines@) =~= metadata_template_spec(*media_attributes));
    lines
}

proof fn lemma_views_push(v: Seq<String>, x: String)
    ensures
        string_views(v.push(x)) == string_views(v).push(x@),
{
    assert(string_views(v.push(x)) =~= string_views(v).push(x@));
}

/// One step of wrapping a header line: given the first line that wrapping
/// the remaining text gave (if any), the line to keep and the text that is
/// left after it. Without a wrapped line the whole remainder is kept.
pub fn next_wrapped_line(rest: Vec<char>, first_line: Option<String>) -> (r: (String, Vec<char>))
    requires
        rest@.len() > 0,
    ensures
        first_line is None ==> r.0@ == rest@ && r.1@.len() == 0,
        first_line matches Some(l) ==> r.0@ == l@ && r.1@ == rest@.skip(advance(l@.len(), rest@.len()) as int),
{
    match first_line {
        None => (string_of(&rest), Vec::new()),
        Some(line) => {
            let n = chars_of(line.as_str()).len();
            let adv = if n == 0 { 1 } else if n > rest.len() { rest.len() } else { n };
            let mut head = rest;
            let tail = head.split_off(adv);
            (line, tail)
        },
    }
}

/// Wraps one header line to at most `max_length` columns.
pub fn wrap_metadata_line(line: &str, max_length: usize) -> (r: Vec<String>)
    ensures
        string_views(r@) == wrap_line_spec(line@, max_length as nat),
{
    let mut rest = chars_of(line);
    let mut out: Vec<String> = Vec::new();
    assert(string_views(out@) =~= Seq::<Seq<char>>::empty());
    while rest.len() > 0
        invariant
            string_views(out@) + wrap_line_spec(rest@, max_length as nat) == wrap_line_spec(line@, max_length as nat),
        decreases rest@.len(),
    {
        let text = string_of(&rest);
        let ls = wrap_text(text.as_str(), max_length);
        let first_line = if ls.len() > 0 { Some(ls[0].clone()) } else { None };
        proof {
            if ls@.len() > 0 {
                assert(ls@[0]@ == string_views(ls@)[0]);
            }
        }
        let ghost before = string_views(out@);
        let ghost old_rest = rest@;
        let (kept, remaining) = next_wrapped_line(rest, first_line);
        out.push(kept);
        rest = remaining;
        proof {
            assert(string_views(out@) =~= before.push(kept@));
            if ls@.len() == 0 {
                assert(wrap_line_spec(rest@, max_length as nat) =~= Seq::<Seq<char>>::empty());
                assert(wrap_line_spec(old_rest, max_length as nat) == seq![old_rest]);
            } else {
                assert(wrap_line_spec(old_rest, max_length as nat) == seq![kept@] + wrap_line_spec(rest@, max_length as nat));
            }
            assert(string_views(out@) + wrap_line_spec(rest@, max_length as nat) =~= before + wrap_line_spec(old_rest, max_length as nat));
        }
    }
    assert(wrap_line_spec(rest@, max_length as nat) =~= Seq::<Seq<char>>::empty());
    assert(string_views(out@) + Seq::<Seq<char>>::empty() =~= string_views(out@));
    out
}

/// Wraps each header line to its own width (see `max_line_length`), in order.
pub fn prepare_metadata_text_lines(lines: &Vec<String>, max_lengths: &Vec<usize>) -> (r: Vec<String>)
    requires
        max_lengths@.len() == lines@.len(),
    ensures
        string_views(r@) == wrap_all_spec(string_views(lines@), max_lengths@),
{
    let mut out: Vec<String> = Vec::new();
    let mut i: usize = 0;
    assert(string_views(lines@).take(0) =~= Seq::<Seq<char>>::empty());
    assert(string_views(out@) =~= Seq::<Seq<char>>::empty());
    while i < lines.len()
        invariant
            i <= lines@.len(),
            max_lengths@.len() == lines@.len(),
            string_views(out@) == wrap_all_spec(string_views(lines@).take(i as int), max_lengths@.take(i as int)),
        decreases lines@.len() - i,
    {
        let wrapped = wrap_metadata_line(lines[i].as_str(), max_lengths[i]);
        let ghost before = string_views(out@);
        let mut j: usize = 0;
        while j < wrapped.len()
            invariant
                j <= wrapped@.len(),
                string_views(out@) == before + string_views(wrapped@).take(j as int),
            decreases wrapped@.len() - j,
        {
            let ghost prev = out@;
            out.push(wrapped[j].clone());
            proof {
                lemma_views_push(prev, wrapped@[j as int]);
                assert(string_views(wrapped@).take(j + 1) =~= string_views(wrapped@).take(j as int).push(wrapped@[j as int]@));
                assert(string_views(out@) =~= before + string_views(wrapped@).take(j + 1));
            }
            j = j + 1;
        }
        proof {
            let t = string_views(lines@).take(i + 1);
            assert(t.drop_last() =~= string_views(lines@).take(i as int));
            assert(max_lengths@.take(i + 1).take(i as int) =~= max_lengths@.take(i as int));
            assert(t.last() == lines@[i as int]@);
            assert(string_views(wrapped@).take(j as int) =~= string_views(wrapped@));
        }
        i = i + 1;
    }
    assert(string_views(lines@).take(i as int) =~= string_views(lines@));
    assert(max_lengths@.take(i as int) =~= max_lengths@);
    out
}

} // verus!
