//! Names of the files and directories that captures are saved under.

use crate::clock::local_stamp;
use crate::text::push_char;
use vstd::prelude::*;
use vstd::string::*;

verus! {

/// Whether Unicode counts the character as a letter or a digit.
pub uninterp spec fn alphanumeric(c: char) -> bool;

/// Whether the character is a letter or a digit.
///
/// Trusted: calls `char::is_alphanumeric`, whose answer depends on the
/// character alone.
#[verifier::external_body]
fn is_alphanumeric(c: char) -> (r: bool)
    ensures
        r == alphanumeric(c),
{
    c.is_alphanumeric()
}

/// The letters and digits of a name, in their order.
pub open spec fn kept(name: Seq<char>) -> Seq<char>
    decreases name.len(),
{
    if name.len() == 0 {
        Seq::empty()
    } else if alphanumeric(name.last()) {
        kept(name.drop_last()).push(name.last())
    } else {
        kept(name.drop_last())
    }
}

/// The name of the file of a capture.
pub open spec fn capture_filename(anchor_name: Seq<char>, stamp: Seq<char>) -> Seq<char> {
    kept(anchor_name) + seq!['_'] + stamp + seq!['.', 't', 's']
}

/// Nothing but letters and digits is left of a name, and what is left was in
/// the name.
pub proof fn lemma_kept(name: Seq<char>)
    ensures
        forall|i: int| 0 <= i < kept(name).len() ==> alphanumeric(#[trigger] kept(name)[i]),
        forall|i: int| 0 <= i < kept(name).len() ==> name.contains(#[trigger] kept(name)[i]),
        kept(name).len() <= name.len(),
    decreases name.len(),
{
    if name.len() > 0 {
        lemma_kept(name.drop_last());
        let shorter = kept(name.drop_last());
        assert forall|i: int| 0 <= i < kept(name).len() implies name.contains(
            #[trigger] kept(name)[i],
        ) by {
            if i < shorter.len() {
                let j = choose|j: int| 0 <= j < name.drop_last().len() && name.drop_last()[j]
                    == shorter[i];
                assert(name[j] == shorter[i]);
            } else {
                assert(name[name.len() - 1] == name.last());
            }
        }
    }
}

/// The name with everything but letters and digits dropped.
pub fn sanitize(name: &str) -> (r: String)
    ensures
        r@ == kept(name@),
{
    let n = name.unicode_len();
    let mut out = String::new();
    let mut i: usize = 0;
    assert(name@.subrange(0, 0) =~= Seq::<char>::empty());
    while i < n
        invariant
            n == name@.len(),
            i <= n,
            out@ == kept(name@.subrange(0, i as int)),
        decreases n - i,
    {
        let c = name.get_char(i);
        proof {
            assert(name@.subrange(0, i + 1).drop_last() =~= name@.subrange(0, i as int));
            assert(name@.subrange(0, i + 1).last() == c);
        }
        if is_alphanumeric(c) {
            push_char(&mut out, c);
        }
        i += 1;
    }
    assert(name@.subrange(0, n as int) =~= name@);
    out
}

/// The file name of a capture of `anchor_name` that begins at the time
/// written in `stamp`: the letters and digits of the name, an underscore, the
/// stamp, and the suffix `.ts`.
pub fn filename_at(anchor_name: &str, stamp: &str) -> (r: String)
    ensures
        r@ == capture_filename(anchor_name@, stamp@),
{
    let mut out = sanitize(anchor_name);
    push_char(&mut out, '_');
    out.append(stamp);
    push_char(&mut out, '.');
    push_char(&mut out, 't');
    push_char(&mut out, 's');
    assert(out@ =~= capture_filename(anchor_name@, stamp@));
    out
}

/// The file name of a capture of `anchor_name` that begins now: the stamp in
/// it has at least the fifteen characters of a date and a time of day.
pub fn generate_filename(anchor_name: &str) -> (r: String)
    ensures
        exists|stamp: Seq<char>| stamp.len() >= 15 && r@ == capture_filename(anchor_name@, stamp),
{
    let stamp = local_stamp();
    let r = filename_at(anchor_name, stamp.as_str());
    assert(stamp@.len() >= 15 && r@ == capture_filename(anchor_name@, stamp@));
    r
}

} // verus!
