//! Bookmark records for exporting findings.
//!
//! An external formatter turns findings into a structured bookmark
//! document, one record per finding of a chosen file. This module builds
//! those records: the filtering by file, the running identifiers, and
//! the record names, all as plain values; serializing and writing them
//! out stays with the formatter.

use crate::hex::{nibble_char, nibble_str};
use crate::scanner::{Finding, FindingModel};
use vstd::prelude::*;
use vstd::string::StringExecFns;

verus! {

/// The lowercase hexadecimal digits of a non-negative value, most
/// significant first, with no leading zeros (a lone zero for zero).
pub open spec fn hex_digits_of(v: int) -> Seq<char>
    decreases v,
{
    if v < 16 {
        seq![nibble_char(v)]
    } else {
        hex_digits_of(v / 16) + seq![nibble_char(v % 16)]
    }
}

/// Appends the lowercase hexadecimal rendering of `v`.
pub fn push_hex_value(out: &mut String, v: usize)
    ensures
        final (out)@ == old(out)@ + hex_digits_of(v as int),
    decreases v,
{
    if v < 16 {
        out.append(nibble_str(v as u8));
        proof {
            assert(out@ =~= old(out)@ + hex_digits_of(v as int));
        }
    } else {
        push_hex_value(out, v / 16);
        out.append(nibble_str((v % 16) as u8));
        proof {
            assert(out@ =~= old(out)@ + hex_digits_of(v as int));
        }
    }
}

/// One bookmark record: a name carrying the match rendering and offset,
/// and the matched region.
pub struct BookmarkRecord {
    /// Running identifier, starting at 1 for each exported file.
    pub id: usize,
    /// `<match content> @ 0x<offset in hex>`.
    pub name: String,
    /// Byte offset of the region: the finding's offset.
    pub address: usize,
    /// Byte length of the region: the finding's match size.
    pub size: usize,
}

/// The mathematical value of a bookmark record.
pub ghost struct BookmarkModel {
    pub id: int,
    pub name: Seq<char>,
    pub address: int,
    pub size: int,
}

impl View for BookmarkRecord {
    type V = BookmarkModel;

    open spec fn view(&self) -> BookmarkModel {
        BookmarkModel {
            id: self.id as int,
            name: self.name@,
            address: self.address as int,
            size: self.size as int,
        }
    }
}

/// The name a finding's record carries.
pub open spec fn bookmark_name(f: FindingModel) -> Seq<char> {
    f.match_content + (" @ 0x")@ + hex_digits_of(f.offset)
}

/// The record built for one finding, under a running identifier.
pub open spec fn record_for(f: FindingModel, id: int) -> BookmarkModel {
    BookmarkModel { id, name: bookmark_name(f), address: f.offset, size: f.match_size }
}

/// The findings that belong to the chosen file, in their listed order.
pub open spec fn matching_findings(fs: Seq<FindingModel>, path: Seq<char>) -> Seq<FindingModel>
    decreases fs.len(),
{
    if fs.len() == 0 {
        Seq::empty()
    } else {
        let rest = matching_findings(fs.skip(1), path);
        if fs[0].filepath == path {
            seq![fs[0]] + rest
        } else {
            rest
        }
    }
}

/// Builds the bookmark records for the findings of one file: one record
/// per finding whose path is the chosen one, in order, with identifiers
/// running from 1.
pub fn bookmark_records(findings: &Vec<Finding>, filepath: &String) -> (r: Vec<BookmarkRecord>)
    ensures
        ({
            let sel = matching_findings(findings@.map_values(|f: Finding| f@), filepath@);
            &&& r@.len() == sel.len()
            &&& forall|j: int| 0 <= j < r@.len() ==> (#[trigger] r@[j])@ == record_for(sel[j], j + 1)
        }),
{
    let n = findings.len();
    let ghost models = findings@.map_values(|f: Finding| f@);
    let mut r: Vec<BookmarkRecord> = Vec::new();
    let ghost mut done: Seq<FindingModel> = Seq::empty();
    let mut i: usize = 0;
    proof {
        assert(models.skip(0) =~= models);
        assert(done + matching_findings(models, filepath@) =~= matching_findings(
            models,
            filepath@,
        ));
    }
    while i < n
        invariant
            i <= n,
            n == findings@.len(),
            models == findings@.map_values(|f: Finding| f@),
            matching_findings(models, filepath@) == done + matching_findings(
                models.skip(i as int),
                filepath@,
            ),
            r@.len() == done.len(),
            r@.len() <= i,
            forall|j: int| 0 <= j < r@.len() ==> (#[trigger] r@[j])@ == record_for(done[j], j + 1),
        decreases n - i,
    {
        let ghost rest = models.skip(i as int);
        proof {
            assert(rest[0] == models[i as int]);
            assert(rest.skip(1) =~= models.skip(i as int + 1));
            assert(models[i as int] == findings@[i as int]@);
        }
        let finding = &findings[i];
        if finding.filepath == *filepath {
            let mut name = String::from_str(finding.match_content.as_str());
            proof {
                reveal_strlit(" @ 0x");
            }
            name.append(" @ 0x");
            push_hex_value(&mut name, finding.offset);
            proof {
                assert(name@ =~= bookmark_name(models[i as int]));
            }
            let record = BookmarkRecord {
                id: r.len() + 1,
                name,
                address: finding.offset,
                size: finding.match_size,
            };
            proof {
                assert(record@ == record_for(models[i as int], r@.len() as int + 1));
            }
            r.push(record);
            proof {
                let prev = done;
                done = done.push(models[i as int]);
                assert(done =~= prev + seq![models[i as int]]);
                assert(prev + (seq![models[i as int]] + matching_findings(
                    models.skip(i as int + 1),
                    filepath@,
                )) =~= done + matching_findings(models.skip(i as int + 1), filepath@));
            }
        }
        i += 1;
    }
    proof {
        assert(models.skip(n as int) =~= Seq::<FindingModel>::empty());
        assert(done + Seq::<FindingModel>::empty() =~= done);
    }
    r
}

} // verus!
