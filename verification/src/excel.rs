//! The Excel facade: list the sheets an archive carries, and hand out
//! sheet handles backed by the archive.

use vstd::prelude::*;
use vstd::string::StringExecFns;
use vstd::string::StringSliceAdditionalSpecFns;
use vstd::utf8::encode_utf8;

use crate::error::{Error, ErrorV};
use crate::pathutil::{spec_find_byte, find_byte_vec, lemma_find_byte_range};
use crate::sheet::{ExcelResource, RawExcelSheet, SheetOptions};
use crate::sqpack::{SqPack, spec_sqpack_read};
use crate::strutil::{push_dec, spec_dec};

verus! {

/// An Excel resource backed by a SqPack archive: the manifest is
/// `exd/root.exl`, a sheet's header is `exd/<name>.exh`, and a page is
/// `exd/<name>_<start>.exd`, with `_<language>` appended for any
/// language but the neutral one.
pub struct SqPackResource<'a> {
    pub sqpack: &'a SqPack,
}

impl<'a> SqPackResource<'a> {
    /// Wrap an archive as a sheet resource.
    pub fn new(sqpack: &'a SqPack) -> (r: Self)
        ensures
            r.sqpack == sqpack,
    {
        Self { sqpack }
    }
}

/// The path of a sheet's header file.
pub open spec fn spec_header_path(name: Seq<char>) -> Seq<char> {
    "exd/"@ + name + ".exh"@
}

/// The path of a sheet's page file.
pub open spec fn spec_page_path(name: Seq<char>, start_id: u32, language: u8) -> Seq<char> {
    if language == 0 {
        "exd/"@ + name + "_"@ + spec_dec(start_id as int) + ".exd"@
    } else {
        "exd/"@ + name + "_"@ + spec_dec(start_id as int) + "_"@ + spec_dec(language as int)
            + ".exd"@
    }
}

impl<'a> ExcelResource for SqPackResource<'a> {
    open spec fn list_data(&self) -> Result<Seq<u8>, ErrorV> {
        spec_sqpack_read(
            self.sqpack@,
            "exd/root.exl"@,
            encode_utf8("exd/root.exl"@),
        )
    }

    open spec fn header_data(&self, name: Seq<char>) -> Result<Seq<u8>, ErrorV> {
        spec_sqpack_read(
            self.sqpack@,
            spec_header_path(name),
            encode_utf8(spec_header_path(name)),
        )
    }

    open spec fn page_data(&self, name: Seq<char>, start_id: u32, language: u8) -> Result<
        Seq<u8>,
        ErrorV,
    > {
        spec_sqpack_read(
            self.sqpack@,
            spec_page_path(name, start_id, language),
            encode_utf8(spec_page_path(name, start_id, language)),
        )
    }

    fn list(&self) -> (r: Result<Vec<u8>, Error>) {
        self.sqpack.read_file("exd/root.exl")
    }

    fn header(&self, sheet_name: &str) -> (r: Result<Vec<u8>, Error>) {
        let mut p = String::from_str("exd/");
        p.append(sheet_name);
        p.append(".exh");
        proof {
            assert(p@ =~= spec_header_path(sheet_name@));
        }
        self.sqpack.read_file(p.as_str())
    }

    fn page(&self, sheet_name: &str, start_id: u32, language: u8) -> (r: Result<Vec<u8>, Error>) {
        let mut p = String::from_str("exd/");
        p.append(sheet_name);
        p.append("_");
        push_dec(&mut p, start_id as u128);
        if language != 0 {
            p.append("_");
            push_dec(&mut p, language as u128);
        }
        p.append(".exd");
        proof {
            assert(p@ =~= spec_page_path(sheet_name@, start_id, language));
        }
        self.sqpack.read_file(p.as_str())
    }
}

/// A line of the manifest, stripped of its carriage return.
pub open spec fn strip_cr(l: Seq<u8>) -> Seq<u8> {
    if l.len() > 0 && l.last() == 13 {
        l.drop_last()
    } else {
        l
    }
}

/// What one manifest line carries: nothing when it is empty, else the
/// name standing before the comma, which must be plain ASCII.
pub open spec fn spec_exl_line(d: Seq<u8>, pos: int, e: int) -> Result<Seq<Seq<char>>, ErrorV> {
    let line = strip_cr(d.subrange(pos, e));
    if line.len() == 0 {
        Ok(Seq::empty())
    } else {
        let nm = line.subrange(0, spec_find_byte(line, 0, 44));
        if forall|i: int| 0 <= i < nm.len() ==> nm[i] < 128 {
            Ok(seq![nm.map_values(|b: u8| b as char)])
        } else {
            Err(ErrorV::Resource("Failed to read list. Non-ASCII name."@))
        }
    }
}

/// The sheet names the manifest lists from position `pos` on: one line
/// per name, the name standing before the comma; empty lines carry
/// nothing, and a name must be plain ASCII.
pub open spec fn spec_exl_names_from(d: Seq<u8>, pos: int) -> Result<Seq<Seq<char>>, ErrorV>
    decreases d.len() - pos,
{
    if pos < 0 || pos >= d.len() {
        Ok(Seq::empty())
    } else {
        let e0 = spec_find_byte(d, pos, 10);
        let e = if e0 < pos {
            pos
        } else {
            e0
        };
        match spec_exl_line(d, pos, e) {
            Err(e2) => Err(e2),
            Ok(hn) => {
                let tail: Result<Seq<Seq<char>>, ErrorV> = if e < d.len() {
                    spec_exl_names_from(d, e + 1)
                } else {
                    Ok(Seq::empty())
                };
                match tail {
                    Err(e2) => Err(e2),
                    Ok(t) => Ok(hn + t),
                }
            },
        }
    }
}

/// The sheet names a manifest buffer lists: the first line is the
/// `EXLT` signature, and every later line names one sheet.
pub open spec fn spec_parse_exl(d: Seq<u8>) -> Result<Seq<Seq<char>>, ErrorV> {
    if d.len() < 5 || !(d[0] == 69 && d[1] == 88 && d[2] == 76 && d[3] == 84 && d[4] == 44) {
        Err(ErrorV::Resource("Failed to read list. Invalid magic."@))
    } else {
        let e = spec_find_byte(d, 0, 10);
        if e < d.len() {
            spec_exl_names_from(d, e + 1)
        } else {
            Ok(Seq::empty())
        }
    }
}

/// Turn an ASCII line into a string.
fn ascii_string(d: &Vec<u8>, from: usize, to: usize) -> (r: String)
    requires
        from <= to <= d@.len(),
        forall|i: int| from <= i < to ==> d@[i] < 128,
    ensures
        r@ == d@.subrange(from as int, to as int).map_values(|b: u8| b as char),
{
    let mut s = String::new();
    let mut i: usize = from;
    while i < to
        invariant
            from <= i <= to <= d@.len(),
            forall|k: int| from <= k < to ==> d@[k] < 128,
            s@ == d@.subrange(from as int, i as int).map_values(|b: u8| b as char),
        decreases to - i,
    {
        let b = d[i];
        s.push(b as char);
        proof {
            assert(d@.subrange(from as int, i + 1).map_values(|b2: u8| b2 as char)
                =~= d@.subrange(from as int, i as int).map_values(|b2: u8| b2 as char).push(
                d@[i as int] as char,
            ));
        }
        i = i + 1;
    }
    s
}

/// The facade over sheets: listing and sheet handles.
pub struct Excel<R: ExcelResource> {
    resource: R,
    default_language: u8,
}

impl<R: ExcelResource> Excel<R> {
    /// The resource the facade reads through.
    pub closed spec fn spec_resource(&self) -> R {
        self.resource
    }

    /// The default language of the sheets handed out.
    pub closed spec fn spec_default_language(&self) -> u8 {
        self.default_language
    }

    /// Wrap a resource, with the neutral default language.
    pub fn new(resource: R) -> (r: Self)
        ensures
            r.spec_resource() == resource,
            r.spec_default_language() == 0,
    {
        Self { resource, default_language: 0 }
    }

    /// Wrap a resource with a default language for row lookups.
    pub fn with_default_language(resource: R, language: u8) -> (r: Self)
        ensures
            r.spec_resource() == resource,
            r.spec_default_language() == language,
    {
        Self { resource, default_language: language }
    }

    /// The names of the sheets the manifest lists.
    pub fn list(&self) -> (r: Result<Vec<String>, Error>)
        ensures
            (match self.spec_resource().list_data() {
                Err(e) => r matches Err(x) && x@ == e,
                Ok(d) => match spec_parse_exl(d) {
                    Err(e) => r matches Err(x) && x@ == e,
                    Ok(names) => r matches Ok(v) && v@.map_values(|s: String| s@) == names,
                },
            }),
    {
        let d = match self.resource.list() {
            Ok(d) => d,
            Err(e) => return Err(e),
        };
        let len = d.len();
        if len < 5 || !(d[0] == 69 && d[1] == 88 && d[2] == 76 && d[3] == 84 && d[4] == 44) {
            return Err(
                Error::Resource(String::from_str("Failed to read list. Invalid magic.")),
            );
        }
        proof {
            lemma_find_byte_range(d@, 0, 10);
        }
        let e0 = find_byte_vec(&d, 0, 10);
        let mut names: Vec<String> = Vec::new();
        if e0 == len {
            proof {
                assert(names@.map_values(|s: String| s@) =~= Seq::<Seq<char>>::empty());
            }
            return Ok(names);
        }
        let mut pos: usize = e0 + 1;
        while pos < len
            invariant
                len == d@.len(),
                pos <= len + 1,
                (match self.spec_resource().list_data() {
                    Ok(dd) => dd == d@,
                    Err(_) => false,
                }),
                (match spec_exl_names_from(d@, pos as int) {
                    Ok(rest) => spec_parse_exl(d@) == Ok::<Seq<Seq<char>>, ErrorV>(
                        names@.map_values(|s: String| s@) + rest,
                    ),
                    Err(e) => spec_parse_exl(d@) == Err::<Seq<Seq<char>>, ErrorV>(e),
                }),
            decreases len - pos,
        {
            proof {
                lemma_find_byte_range(d@, pos as int, 10);
            }
            let e = find_byte_vec(&d, pos, 10);
            let line_end: usize = if e > pos && d[e - 1] == 13 {
                e - 1
            } else {
                e
            };
            proof {
                assert(strip_cr(d@.subrange(pos as int, e as int)) =~= d@.subrange(
                    pos as int,
                    line_end as int,
                ));
            }
            if line_end > pos {
                proof {
                    lemma_find_byte_range(d@.subrange(pos as int, line_end as int), 0, 44);
                }
                let ghost line = d@.subrange(pos as int, line_end as int);
                let ce = find_byte_in_range(&d, pos, line_end, 44);
                proof {
                    assert(line.subrange(0, ce - pos) =~= d@.subrange(pos as int, ce as int));
                }
                let mut ok = true;
                let mut i: usize = pos;
                while i < ce
                    invariant
                        pos <= i <= ce <= len,
                        len == d@.len(),
                        ok == (forall|k: int| pos <= k < i ==> d@[k] < 128),
                    decreases ce - i,
                {
                    if d[i] >= 128 {
                        ok = false;
                    }
                    i = i + 1;
                }
                if !ok {
                    let err = Error::Resource(
                        String::from_str("Failed to read list. Non-ASCII name."),
                    );
                    proof {
                        assert(exists|k: int| pos <= k < ce && d@[k] >= 128);
                        let k = choose|k: int| pos <= k < ce && d@[k] >= 128;
                        assert(line.subrange(0, ce - pos)[k - pos] == d@[k]);
                        let nm = line.subrange(0, spec_find_byte(line, 0, 44));
                        assert(nm == line.subrange(0, ce - pos));
                        assert(!(forall|i: int| 0 <= i < nm.len() ==> nm[i] < 128)) by {
                            assert(nm[k - pos] >= 128);
                        }
                        assert(spec_exl_line(d@, pos as int, e as int) == Err::<
                            Seq<Seq<char>>,
                            ErrorV,
                        >(ErrorV::Resource("Failed to read list. Non-ASCII name."@)));
                        assert(spec_exl_names_from(d@, pos as int) == Err::<
                            Seq<Seq<char>>,
                            ErrorV,
                        >(ErrorV::Resource("Failed to read list. Non-ASCII name."@)));
                        assert(spec_parse_exl(d@) == Err::<Seq<Seq<char>>, ErrorV>(
                            ErrorV::Resource("Failed to read list. Non-ASCII name."@),
                        ));
                    }
                    return Err(err);
                }
                let nm = ascii_string(&d, pos, ce);
                let ghost before = names@;
                names.push(nm);
                proof {
                    let deep_old = before.map_values(|s: String| s@);
                    let deep_new = names@.map_values(|s: String| s@);
                    assert(deep_new =~= deep_old.push(nm@));
                    let tail: Result<Seq<Seq<char>>, ErrorV> = if e < len {
                        spec_exl_names_from(d@, e + 1)
                    } else {
                        Ok(Seq::empty())
                    };
                    if tail is Ok {
                        let t = tail->Ok_0;
                        assert(deep_old + (seq![nm@] + t) =~= deep_new + t);
                    }
                }
            } else {
                proof {
                    let deep = names@.map_values(|s: String| s@);
                    let tail: Result<Seq<Seq<char>>, ErrorV> = if e < len {
                        spec_exl_names_from(d@, e + 1)
                    } else {
                        Ok(Seq::empty())
                    };
                    if tail is Ok {
                        let t = tail->Ok_0;
                        assert(deep + (Seq::<Seq<char>>::empty() + t) =~= deep + t);
                    }
                }
            }
            pos = if e < len {
                e + 1
            } else {
                len
            };
        }
        proof {
            assert(names@.map_values(|s: String| s@) + Seq::<Seq<char>>::empty() =~= names@.map_values(
                |s: String| s@,
            ));
        }
        Ok(names)
    }

    /// A handle on the named sheet, when the archive carries its header.
    pub fn get_raw_sheet<'b>(&'b self, name: &str) -> (r: Result<RawExcelSheet<'b, R>, Error>)
        ensures
            (match self.spec_resource().header_data(name@) {
                Err(e) => r matches Err(x) && x@ == e,
                Ok(_) => r matches Ok(s) && s.spec_name() == name@ && s.spec_default_language()
                    == self.spec_default_language() && *s.spec_resource() == self.spec_resource(),
            }),
    {
        match self.resource.header(name) {
            Ok(_) => Ok(
                RawExcelSheet::with_options(
                    name,
                    &self.resource,
                    SheetOptions { default_language: self.default_language },
                ),
            ),
            Err(e) => Err(e),
        }
    }
}

/// Find the first occurrence of `x` in `v[from..to]`, yielding `to`
/// when there is none.
fn find_byte_in_range(v: &Vec<u8>, from: usize, to: usize, x: u8) -> (r: usize)
    requires
        from <= to <= v@.len(),
    ensures
        from <= r <= to,
        r - from == spec_find_byte(v@.subrange(from as int, to as int), 0, x),
{
    let ghost s = v@.subrange(from as int, to as int);
    let mut i: usize = from;
    while i < to
        invariant
            from <= i <= to <= v@.len(),
            s == v@.subrange(from as int, to as int),
            spec_find_byte(s, 0, x) == spec_find_byte(s, i - from, x),
        decreases to - i,
    {
        if v[i] == x {
            proof {
                assert(s[i - from] == v@[i as int]);
            }
            return i;
        }
        i = i + 1;
    }
    to
}

} // verus!
