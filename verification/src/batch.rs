//! Importing a set of weapon source files as one batch.
//!
//! Each file is parsed and reconciled independently; a failed parse is
//! collected with the file's weapon identity and excluded, never aborting
//! the batch. The outcome is a pure function of the source texts alone, so
//! importing the same sources twice builds the identical record set; a
//! store that clears every table before bulk-inserting the batch therefore
//! ends in the same state after either run.

use vstd::prelude::*;

use crate::wepn_file::{parse_spec, pull_in_spec, WeaponFile, WeaponFileV};
use crate::ParseError;

verus! {

/// The models of the aggregates of a batch, in order.
pub open spec fn file_seq_view(v: Seq<WeaponFile>) -> Seq<WeaponFileV> {
    Seq::new(v.len(), |i: int| v[i]@)
}

/// The models of the collected failures, in order.
pub open spec fn err_seq_view(v: Seq<(Vec<u8>, ParseError)>) -> Seq<(Seq<u8>, ParseError)> {
    Seq::new(v.len(), |i: int| (v[i].0@, v[i].1))
}

/// What a batch of `(weapon identity, source text)` pairs builds: the
/// reconciled aggregates of the files that parse, and the identity and
/// error of each file that does not, both in input order.
pub open spec fn batch_spec(files: Seq<(Seq<u8>, Seq<u8>)>) -> (
    Seq<WeaponFileV>,
    Seq<(Seq<u8>, ParseError)>,
)
    decreases files.len(),
{
    if files.len() == 0 {
        (seq![], seq![])
    } else {
        let rest = batch_spec(files.drop_first());
        match parse_spec(files[0].0, files[0].1) {
            Result::Ok(x) => (seq![pull_in_spec(x)].add(rest.0), rest.1),
            Result::Err(e) => (rest.0, seq![(files[0].0, e)].add(rest.1)),
        }
    }
}

/// Parse and reconcile every file of a batch, collecting per-file failures
/// instead of aborting. The outcome depends on the source texts alone.
#[verifier::rlimit(100)]
pub fn build_batch(files: &Vec<(Vec<u8>, Vec<u8>)>) -> (r: (
    Vec<WeaponFile>,
    Vec<(Vec<u8>, ParseError)>,
))
    ensures
        file_seq_view(r.0@) == batch_spec(files.deep_view()).0,
        err_seq_view(r.1@) == batch_spec(files.deep_view()).1,
{
    let ghost gfiles = files.deep_view();
    let mut oks: Vec<WeaponFile> = Vec::new();
    let mut errs: Vec<(Vec<u8>, ParseError)> = Vec::new();
    let mut i: usize = 0;
    proof {
        assert(gfiles.skip(0) =~= gfiles);
        assert(file_seq_view(oks@) =~~= Seq::<WeaponFileV>::empty());
        assert(err_seq_view(errs@) =~~= Seq::<(Seq<u8>, ParseError)>::empty());
        let rest = batch_spec(gfiles);
        assert(file_seq_view(oks@).add(rest.0) =~~= rest.0);
        assert(err_seq_view(errs@).add(rest.1) =~~= rest.1);
    }
    while i < files.len()
        invariant
            0 <= i <= files@.len(),
            gfiles == files.deep_view(),
            gfiles.len() == files@.len(),
            batch_spec(gfiles).0 == file_seq_view(oks@).add(batch_spec(gfiles.skip(i as int)).0),
            batch_spec(gfiles).1 == err_seq_view(errs@).add(batch_spec(gfiles.skip(i as int)).1),
        decreases files@.len() - i,
    {
        let ghost suffix = gfiles.skip(i as int);
        proof {
            assert(suffix[0] =~= (files@[i as int].0@, files@[i as int].1@));
            assert(suffix.drop_first() =~= gfiles.skip(i + 1));
        }
        let ghost pre_oks = file_seq_view(oks@);
        let ghost pre_errs = err_seq_view(errs@);
        let name = &files[i].0;
        let text = &files[i].1;
        match WeaponFile::parse(name.as_slice(), text.as_slice()) {
            Result::Ok(mut x) => {
                x.pull_in();
                let ghost xv = x@;
                oks.push(x);
                proof {
                    assert(file_seq_view(oks@) =~~= pre_oks.push(xv));
                    let rest = batch_spec(gfiles.skip(i + 1));
                    assert(pre_oks.add(seq![xv].add(rest.0)) =~~= file_seq_view(oks@).add(
                        rest.0,
                    ));
                }
            },
            Result::Err(e) => {
                let id = crate::ascii::copy_vec(name);
                let ghost idv = id@;
                errs.push((id, e));
                proof {
                    assert(err_seq_view(errs@) =~~= pre_errs.push((idv, e)));
                    let rest = batch_spec(gfiles.skip(i + 1));
                    assert(pre_errs.add(seq![(suffix[0].0, e)].add(rest.1)) =~~= err_seq_view(
                        errs@,
                    ).add(rest.1));
                }
            },
        }
        i = i + 1;
    }
    proof {
        assert(gfiles.skip(gfiles.len() as int).len() == 0);
        assert(file_seq_view(oks@).add(Seq::<WeaponFileV>::empty()) =~~= file_seq_view(oks@));
        assert(err_seq_view(errs@).add(Seq::<(Seq<u8>, ParseError)>::empty()) =~~= err_seq_view(
            errs@,
        ));
    }
    (oks, errs)
}

} // verus!
