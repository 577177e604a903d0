//! Reconciliation of the filesystem against the recorded history: the
//! history must be a checksum-equal prefix of the sorted forward migrations.
//! The part of the filesystem list beyond the history is what remains to be
//! applied; the first checksum that disagrees is a fatal mismatch, reported
//! with the file, its computed checksum and the stored one.
use vstd::prelude::*;

use crate::error::ChecksumMismatchError;
use crate::error::Error;
use crate::files::views_of;
use crate::files::SqlInnerFile;
use crate::files::SqlInnerFileView;
use crate::history::SchemaHistoryRow;
use crate::history::SchemaHistoryRowView;

verus! {

/// The values of a sequence of history rows.
pub open spec fn row_views_of(s: Seq<SchemaHistoryRow>) -> Seq<SchemaHistoryRowView> {
    s.map_values(|r: SchemaHistoryRow| r@)
}

/// How many positions the filesystem list and the history share.
pub open spec fn spec_common_len(files: Seq<SqlInnerFileView>, history: Seq<SchemaHistoryRowView>) -> int {
    if files.len() < history.len() {
        files.len() as int
    } else {
        history.len() as int
    }
}

/// The first shared position whose checksums disagree, scanning from
/// position `i`.
pub open spec fn spec_first_mismatch_from(
    files: Seq<SqlInnerFileView>,
    history: Seq<SchemaHistoryRowView>,
    i: int,
) -> Option<int>
    decreases spec_common_len(files, history) - i,
{
    if i < 0 || i >= spec_common_len(files, history) {
        None
    } else if files[i].checksum != history[i].checksum {
        Some(i)
    } else {
        spec_first_mismatch_from(files, history, i + 1)
    }
}

/// The first shared position whose checksums disagree, if any.
pub open spec fn spec_first_mismatch(
    files: Seq<SqlInnerFileView>,
    history: Seq<SchemaHistoryRowView>,
) -> Option<int> {
    spec_first_mismatch_from(files, history, 0)
}

/// Compares the sorted forward migrations against the history rows in rank
/// order, position by position. When every shared position agrees on its
/// checksum, returns the migrations beyond the history: those not yet
/// applied. The first disagreement is a checksum mismatch naming the file,
/// its computed checksum and the stored one. Extra history rows beyond the
/// filesystem list are tolerated.
pub fn filter_out_and_verify_previous_migrations(
    files: Vec<SqlInnerFile>,
    history: &Vec<SchemaHistoryRow>,
) -> (r: Result<Vec<SqlInnerFile>, Error>)
    ensures
        match r {
            Ok(rest) => {
                &&& spec_first_mismatch(views_of(files@), row_views_of(history@)) is None
                &&& views_of(rest@) == views_of(files@).skip(
                    spec_common_len(views_of(files@), row_views_of(history@)),
                )
            },
            Err(e) => {
                &&& e matches Error::ChecksumMismatchError(c) && spec_first_mismatch(
                    views_of(files@),
                    row_views_of(history@),
                ) matches Some(im) && c.file_name@ == views_of(files@)[im].file_name
                    && c.file_checksum as int == views_of(files@)[im].checksum
                    && c.applied_checksum as int == row_views_of(history@)[im].checksum
            },
        },
{
    let ghost fv = views_of(files@);
    let ghost hv = row_views_of(history@);
    let n = files.len();
    let m = history.len();
    let common: usize = if n < m {
        n
    } else {
        m
    };
    assert(common as int == spec_common_len(fv, hv));
    let mut i: usize = 0;
    while i < common
        invariant
            i <= common,
            common as int == spec_common_len(fv, hv),
            fv == views_of(files@),
            hv == row_views_of(history@),
            n == files@.len(),
            m == history@.len(),
            spec_first_mismatch(fv, hv) == spec_first_mismatch_from(fv, hv, i as int),
        decreases common - i,
    {
        assert(fv[i as int] == files@[i as int]@);
        assert(hv[i as int] == history@[i as int]@);
        if files[i].checksum != history[i].checksum {
            assert(spec_first_mismatch_from(fv, hv, i as int) == Some(i as int));
            return Err(
                Error::ChecksumMismatchError(
                    ChecksumMismatchError {
                        file_name: files[i].file_name.clone(),
                        file_checksum: files[i].checksum,
                        applied_checksum: history[i].checksum,
                    },
                ),
            );
        }
        i = i + 1;
    }
    assert(spec_first_mismatch(fv, hv) is None);

    let ghost orig = files@;
    let mut fs = files;
    let mut rest: Vec<SqlInnerFile> = Vec::new();
    proof {
        assert(fs@ =~= orig.subrange(0, common as int) + orig.subrange(
            common as int + rest@.len(),
            orig.len() as int,
        ));
        assert(views_of(rest@) =~= views_of(orig).subrange(
            common as int,
            common as int + rest@.len(),
        ));
    }
    while fs.len() > common
        invariant
            common + rest@.len() <= orig.len(),
            fs@ == orig.subrange(0, common as int) + orig.subrange(
                common as int + rest@.len(),
                orig.len() as int,
            ),
            views_of(rest@) == views_of(orig).subrange(
                common as int,
                common as int + rest@.len(),
            ),
        decreases fs@.len(),
    {
        let ghost rest0 = rest@;
        let ghost fs0 = fs@;
        let f = fs.remove(common);
        proof {
            assert(fs0[common as int] == orig[common as int + rest0.len()]);
        }
        rest.push(f);
        proof {
            assert(fs@ =~= orig.subrange(0, common as int) + orig.subrange(
                common as int + rest@.len(),
                orig.len() as int,
            ));
            assert(views_of(rest@) =~= views_of(orig).subrange(
                common as int,
                common as int + rest@.len(),
            ));
        }
    }
    proof {
        assert(rest@.len() == orig.len() - common);
        assert(views_of(rest@) =~= views_of(orig).skip(common as int));
    }
    Ok(rest)
}

} // verus!
