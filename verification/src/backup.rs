//! Backup names for the filter's output file: the first backup of a path is
//! `path.bak`, later ones `path.bak.1`, `path.bak.2`, and so on. The names
//! for distinct counters never collide, so probing upward from the first
//! candidate can never overwrite an earlier backup.

use vstd::prelude::*;
use vstd::string::*;
use crate::ancestry;
use crate::record;
use crate::strutil;

verus! {

/// The decimal numeral for `n`, most significant digit first.
pub open spec fn dec_digits(n: nat) -> Seq<char>
    decreases n,
{
    if n < 10 {
        seq![record::hex_digit(n as int)]
    } else {
        dec_digits(n / 10) + seq![record::hex_digit((n % 10) as int)]
    }
}

/// The backup name for a path: `path.bak` for the first attempt, then
/// `path.bak.N` for attempt `N`.
pub open spec fn backup_name(path: Seq<char>, counter: nat) -> Seq<char> {
    if counter == 0 {
        path + ".bak"@
    } else {
        path + ".bak."@ + dec_digits(counter)
    }
}

fn append_dec(out: &mut String, n: u64)
    ensures
        final(out)@ == old(out)@ + dec_digits(n as nat),
    decreases n,
{
    if n < 10 {
        strutil::string_push(out, record::hex_digit_char(n as u32));
        proof {
            assert(out@ =~= old(out)@ + dec_digits(n as nat));
        }
    } else {
        append_dec(out, n / 10);
        strutil::string_push(out, record::hex_digit_char((n % 10) as u32));
        proof {
            assert(out@ =~= old(out)@ + dec_digits(n as nat));
        }
    }
}

/// The backup path to try at attempt `counter`: the caller probes counters
/// upward from zero and takes the first candidate that does not exist yet.
pub fn find_backup_path(original: &str, counter: u64) -> (r: String)
    ensures
        r@ == backup_name(original@, counter as nat),
{
    let mut out = String::from_str(original);
    if counter == 0 {
        out.append(".bak");
    } else {
        out.append(".bak.");
        append_dec(&mut out, counter);
        proof {
            assert(out@ =~= original@ + ".bak."@ + dec_digits(counter as nat));
        }
    }
    out
}

/// The outcome of probing one backup candidate.
pub enum BackupStep {
    /// The candidate is free: back up to this path.
    Use(String),
    /// The candidate is taken: probe this counter next.
    Retry(u64),
}

/// One step of the upward probe for a free backup name: given whether the
/// candidate for `counter` already exists, either that candidate is the
/// backup path, or the probe moves to the next counter.
pub fn backup_step(original: &str, counter: u64, occupied: bool) -> (r: BackupStep)
    requires
        counter < u64::MAX,
    ensures
        match r {
            BackupStep::Use(name) => !occupied && name@ == backup_name(
                original@,
                counter as nat,
            ),
            BackupStep::Retry(next) => occupied && next == counter + 1,
        },
{
    if occupied {
        BackupStep::Retry(counter + 1)
    } else {
        BackupStep::Use(find_backup_path(original, counter))
    }
}

proof fn lemma_dec_digits_shape(n: nat)
    ensures
        dec_digits(n).len() >= 1,
        ancestry::all_digits(dec_digits(n)),
        ancestry::dec_val(dec_digits(n)) == n,
    decreases n,
{
    if n < 10 {
        let d = record::hex_digit(n as int);
        assert(seq![d].drop_last() =~= Seq::<char>::empty());
        assert(ancestry::dec_val(Seq::<char>::empty()) == 0);
        assert(ancestry::dec_val(seq![d]) == ancestry::digit_val(d));
    } else {
        lemma_dec_digits_shape(n / 10);
        let a = dec_digits(n / 10);
        let d = record::hex_digit((n % 10) as int);
        assert((a + seq![d]).drop_last() =~= a);
        assert((a + seq![d]).last() == d);
        assert(ancestry::dec_val(a + seq![d]) == ancestry::dec_val(a) * 10 + ancestry::digit_val(
            d,
        ));
        assert(forall|i: int|
            0 <= i < (a + seq![d]).len() ==> ancestry::is_dec_digit(#[trigger] (a + seq![d])[i]));
    }
}

/// Backup names never collide: distinct counters give distinct names for
/// the same path, so repeated runs leave every earlier backup in place.
pub proof fn lemma_backup_names_distinct(path: Seq<char>, m: nat, n: nat)
    requires
        m != n,
    ensures
        backup_name(path, m) != backup_name(path, n),
{
    lemma_dec_digits_shape(m);
    lemma_dec_digits_shape(n);
    reveal_strlit(".bak");
    reveal_strlit(".bak.");
    if m == 0 || n == 0 {
        assert(backup_name(path, m).len() != backup_name(path, n).len());
    } else {
        if backup_name(path, m) == backup_name(path, n) {
            let a = backup_name(path, m);
            let p = path.len() + ".bak."@.len();
            assert(dec_digits(m) =~= a.subrange(p as int, a.len() as int));
            assert(dec_digits(n) =~= a.subrange(p as int, a.len() as int));
            assert(ancestry::dec_val(dec_digits(m)) == ancestry::dec_val(dec_digits(n)));
            assert(false);
        }
    }
}

/// A backup name is always longer than the path itself: no backup can
/// overwrite the file it backs up.
pub proof fn lemma_backup_name_fresh(path: Seq<char>, counter: nat)
    ensures
        backup_name(path, counter).len() > path.len(),
{
    lemma_dec_digits_shape(counter);
    reveal_strlit(".bak");
    reveal_strlit(".bak.");
}

} // verus!
