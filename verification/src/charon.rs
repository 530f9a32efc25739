//! The manifest-driven installer's data model: a named installation
//! command holding the items to copy, and the index entry it writes. File
//! copying itself happens outside; this module owns the paths, the item
//! options, and the rendered manifest lines.
use crate::strutil::dec_digits;
use crate::strutil::last_where_char;
use crate::strutil::lemma_last_where_char;
use crate::strutil::usize_to_string;
use vstd::prelude::*;
use vstd::string::StrSliceExecFns;
use vstd::string::StringExecFns;

verus! {

pub open spec fn pred_slash() -> spec_fn(char) -> bool {
    |c: char| c == '/'
}

pub open spec fn pred_dot() -> spec_fn(char) -> bool {
    |c: char| c == '.'
}

/// The final component of a path: everything after the last separator.
pub open spec fn file_name_of(s: Seq<char>) -> Seq<char> {
    match last_where_char(s, pred_slash()) {
        Option::Some(i) => s.skip(i + 1),
        Option::None => s,
    }
}

/// The stem of a path's final component: the part before its last dot,
/// unless the dot opens the name.
pub open spec fn file_stem_of(s: Seq<char>) -> Seq<char> {
    let f = file_name_of(s);
    match last_where_char(f, pred_dot()) {
        Option::Some(i) => if i > 0 {
            f.take(i)
        } else {
            f
        },
        Option::None => f,
    }
}

/// A path joined with one more component.
pub open spec fn path_join(d: Seq<char>, f: Seq<char>) -> Seq<char> {
    if d.len() == 0 {
        f
    } else if d.last() == '/' {
        d + f
    } else {
        d + "/"@ + f
    }
}

/// A string in manifest quotes, with quotes and backslashes escaped.
pub open spec fn escaped(s: Seq<char>) -> Seq<char>
    decreases s.len(),
{
    if s.len() == 0 {
        Seq::empty()
    } else {
        escaped(s.drop_last()) + (if s.last() == '"' || s.last() == '\\' {
            seq!['\\', s.last()]
        } else {
            seq![s.last()]
        })
    }
}

pub open spec fn quoted(s: Seq<char>) -> Seq<char> {
    "\""@ + escaped(s) + "\""@
}

/// The stem of a path's final component.
pub fn file_stem(s: &str) -> (r: String)
    ensures
        r@ == file_stem_of(s@),
{
    let n = s.unicode_len();
    let ghost cs = s@;
    // scan back to the last separator
    let mut start: usize = n;
    while start > 0 && s.get_char(start - 1) != '/'
        invariant
            0 <= start <= n,
            n == s@.len(),
            forall|j: int| start <= j < n ==> s@[j] != '/',
        decreases start,
    {
        start = start - 1;
    }
    let ghost f = file_name_of(cs);
    proof {
        lemma_last_where_char(cs, pred_slash());
        if start > 0 {
            assert((pred_slash())(cs[start - 1]));
            assert(last_where_char(cs, pred_slash()) == Option::Some(start - 1));
        } else {
            match last_where_char(cs, pred_slash()) {
                Option::Some(k) => {
                    assert((pred_slash())(cs[k]));
                    assert(false);
                },
                Option::None => {},
            }
        }
        assert(f =~= cs.subrange(start as int, n as int));
    }
    // scan back to the last dot of the final component
    let mut dot: usize = n;
    while dot > start && s.get_char(dot - 1) != '.'
        invariant
            start <= dot <= n,
            n == s@.len(),
            forall|j: int| dot <= j < n ==> s@[j] != '.',
        decreases dot,
    {
        dot = dot - 1;
    }
    let has_dot = dot > start;
    let stem_end: usize = if has_dot && dot - 1 > start {
        dot - 1
    } else {
        n
    };
    proof {
        assert(f.len() == n - start);
        assert(forall|j: int| 0 <= j < f.len() ==> f[j] == cs[start + j]);
        lemma_last_where_char(f, pred_dot());
        if has_dot {
            assert((pred_dot())(f[dot - 1 - start]));
            assert(last_where_char(f, pred_dot()) == Option::Some(dot - 1 - start as int));
            if dot - 1 > start {
                assert(file_stem_of(cs) =~= cs.subrange(start as int, dot - 1));
            } else {
                assert(file_stem_of(cs) =~= cs.subrange(start as int, n as int));
            }
        } else {
            match last_where_char(f, pred_dot()) {
                Option::Some(k) => {
                    assert((pred_dot())(f[k]));
                    assert(false);
                },
                Option::None => {},
            }
            assert(file_stem_of(cs) =~= cs.subrange(start as int, n as int));
        }
    }
    let mut r = String::new();
    let mut i: usize = start;
    while i < stem_end
        invariant
            start <= i <= stem_end <= n,
            n == s@.len(),
            r@ == s@.subrange(start as int, i as int),
        decreases stem_end - i,
    {
        crate::strutil::push_char(&mut r, s.get_char(i));
        i = i + 1;
        proof {
            assert(s@.subrange(start as int, i as int) =~= s@.subrange(start as int, i - 1).push(
                s@[i - 1],
            ));
        }
    }
    r
}

/// Join a directory path and a component.
pub fn join_path(d: &str, f: &str) -> (r: String)
    ensures
        r@ == path_join(d@, f@),
{
    let n = d.unicode_len();
    let mut r = d.to_owned();
    if n == 0 {
        r.append(f);
        proof {
            assert(d@ + f@ =~= f@);
        }
    } else if d.get_char(n - 1) == '/' {
        r.append(f);
    } else {
        r.append("/");
        r.append(f);
        proof {
            assert(d@ + "/"@ + f@ =~= (d@ + "/"@) + f@);
        }
    }
    r
}

/// Append `s` to `out` in manifest quotes, escaping quotes and
/// backslashes.
pub fn push_quoted(out: &mut String, s: &str)
    ensures
        final(out)@ == old(out)@ + quoted(s@),
{
    let n = s.unicode_len();
    out.append("\"");
    let ghost opened = out@;
    let mut i: usize = 0;
    proof {
        assert(escaped(s@.take(0)) =~= Seq::<char>::empty());
        assert(opened + escaped(s@.take(0)) =~= opened);
    }
    while i < n
        invariant
            0 <= i <= n,
            n == s@.len(),
            out@ == opened + escaped(s@.take(i as int)),
        decreases n - i,
    {
        let c = s.get_char(i);
        let ghost pre = out@;
        if c == '"' || c == '\\' {
            crate::strutil::push_char(out, '\\');
            crate::strutil::push_char(out, c);
        } else {
            crate::strutil::push_char(out, c);
        }
        i = i + 1;
        proof {
            assert(s@.take(i as int).drop_last() =~= s@.take(i - 1));
            assert(s@.take(i as int).last() == s@[i - 1]);
            assert(out@ =~= opened + escaped(s@.take(i as int)));
        }
    }
    out.append("\"");
    proof {
        assert(s@.take(n as int) =~= s@);
        assert(out@ =~= old(out)@ + quoted(s@));
    }
}

/// One item to install: where it comes from, where it goes, its mode
/// bits, and the options the manifest allows.
pub struct InstallItem {
    pub target: String,
    pub dest: String,
    pub perms: u32,
    pub strip_ext: bool,
    pub alias: Option<String>,
    pub overwrite: bool,
    pub comment: String,
}

/// The manifest rendering of an item with the given options: the target
/// always, then only the options that differ from their defaults.
pub open spec fn item_toml_of(
    target: Seq<char>,
    perms: int,
    strip_ext: bool,
    overwrite: bool,
    alias: Option<Seq<char>>,
    comment: Seq<char>,
) -> Seq<char> {
    "{ target = "@ + quoted(target) + (if perms > 0 {
        ", perms = "@ + dec_digits(perms)
    } else {
        Seq::empty()
    }) + (if strip_ext {
        ", strip_ext = true"@
    } else {
        Seq::empty()
    }) + (if !overwrite {
        ", overwrite = false"@
    } else {
        Seq::empty()
    }) + (match alias {
        Option::Some(a) => ", alias = "@ + quoted(a),
        Option::None => Seq::empty(),
    }) + (if comment.len() > 0 {
        ", comment = "@ + quoted(comment)
    } else {
        Seq::empty()
    }) + "}"@
}

/// The manifest rendering of one item value.
pub open spec fn item_toml_spec(it: &InstallItem) -> Seq<char> {
    item_toml_of(
        it.target@,
        it.perms as int,
        it.strip_ext,
        it.overwrite,
        match it.alias {
            Option::Some(a) => Option::Some(a@),
            Option::None => Option::None,
        },
        it.comment@,
    )
}

impl InstallItem {
    /// An empty item: no paths, no mode bits, overwriting allowed.
    pub fn new() -> (r: InstallItem)
        ensures
            r.target@.len() == 0,
            r.dest@.len() == 0,
            r.perms == 0,
            !r.strip_ext,
            r.alias is None,
            r.overwrite,
            r.comment@.len() == 0,
    {
        InstallItem {
            target: String::new(),
            dest: String::new(),
            perms: 0,
            strip_ext: false,
            alias: Option::None,
            overwrite: true,
            comment: String::new(),
        }
    }

    pub fn target(&mut self, target: String)
        ensures
            final(self).target@ == target@,
            final(self).dest == old(self).dest,
            final(self).perms == old(self).perms,
            final(self).strip_ext == old(self).strip_ext,
            final(self).alias == old(self).alias,
            final(self).overwrite == old(self).overwrite,
            final(self).comment == old(self).comment,
    {
        self.target = target;
    }

    pub fn perms(&mut self, val: u32)
        ensures
            *final(self) == (InstallItem { perms: val, ..*old(self) }),
    {
        self.perms = val;
    }

    pub fn strip_ext(&mut self, val: bool)
        ensures
            *final(self) == (InstallItem { strip_ext: val, ..*old(self) }),
    {
        self.strip_ext = val;
    }

    pub fn overwrite(&mut self, val: bool)
        ensures
            *final(self) == (InstallItem { overwrite: val, ..*old(self) }),
    {
        self.overwrite = val;
    }

    pub fn comment(&mut self, val: String)
        ensures
            final(self).comment@ == val@,
            final(self).target == old(self).target,
            final(self).dest == old(self).dest,
            final(self).perms == old(self).perms,
            final(self).strip_ext == old(self).strip_ext,
            final(self).alias == old(self).alias,
            final(self).overwrite == old(self).overwrite,
    {
        self.comment = val;
    }

    /// The destination path as text.
    pub fn print_dest(&self) -> (r: String)
        ensures
            r@ == self.dest@,
    {
        self.dest.clone()
    }

    /// Render the item as one manifest entry.
    #[verifier::rlimit(40)]
    pub fn to_toml_str(&self) -> (r: String)
        ensures
            r@ == item_toml_spec(self),
    {
        let mut out = String::from_str("{ target = ");
        push_quoted(&mut out, self.target.as_str());
        if self.perms > 0 {
            out.append(", perms = ");
            let d = usize_to_string(self.perms as usize);
            out.append(d.as_str());
        }
        if self.strip_ext {
            out.append(", strip_ext = true");
        }
        if !self.overwrite {
            out.append(", overwrite = false");
        }
        match &self.alias {
            Option::Some(a) => {
                out.append(", alias = ");
                push_quoted(&mut out, a.as_str());
            },
            Option::None => {},
        }
        if self.comment.as_str().unicode_len() > 0 {
            out.append(", comment = ");
            push_quoted(&mut out, self.comment.as_str());
        }
        out.append("}");
        proof {
            assert(out@ =~= item_toml_spec(self));
        }
        out
    }
}

/// The starting manifest, with an example entry and one empty section per
/// supported directory.
pub fn skeleton() -> (r: &'static str)
    ensures
        r@
            == "# Example: config = [{ target = \"path/to/local\", alias = \"alt_file_name\", perms = 0x544, strip_ext = false, overwrite = false, comment = \"\" }]\nalias = []\nbin = []\nconfig = []\ndata = []\nlocalconfig = []\nlocaldata = []\nlib = []"@,
{
    "# Example: config = [{ target = \"path/to/local\", alias = \"alt_file_name\", perms = 0x544, strip_ext = false, overwrite = false, comment = \"\" }]\nalias = []\nbin = []\nconfig = []\ndata = []\nlocalconfig = []\nlocaldata = []\nlib = []"
}

/// One guided-creation manifest section: the header, one item holding
/// the path with the given options, and the closing bracket.
pub open spec fn section_of(
    header: Seq<char>,
    path: Seq<char>,
    perms: int,
    strip_ext: bool,
    overwrite: bool,
) -> Seq<char> {
    header + " = [\n\t"@ + item_toml_of(path, perms, strip_ext, overwrite, Option::None, Seq::empty())
        + "\n]\n"@
}

/// The manifest text the guided creation builds from the chosen files: a
/// binary with its extension stripped, a configuration installed twice
/// (the local copy never overwritten), an alias and a library, each
/// executable but the configuration.
pub open spec fn charon_file_spec(
    bin: Option<Seq<char>>,
    config: Option<Seq<char>>,
    alias: Option<Seq<char>>,
    lib: Option<Seq<char>>,
) -> Seq<char> {
    (match bin {
        Option::Some(p) => section_of("bin"@, p, 0x755, true, true),
        Option::None => Seq::empty(),
    }) + (match config {
        Option::Some(p) => section_of("config"@, p, 0x644, false, true) + section_of(
            "localconfig"@,
            p,
            0x644,
            false,
            false,
        ),
        Option::None => Seq::empty(),
    }) + (match alias {
        Option::Some(p) => section_of("alias"@, p, 0x755, false, true),
        Option::None => Seq::empty(),
    }) + (match lib {
        Option::Some(p) => section_of("lib"@, p, 0x755, false, true),
        Option::None => Seq::empty(),
    })
}

fn push_section(out: &mut String, header: &str, path: &str, perms: u32, strip_ext: bool, overwrite: bool)
    ensures
        final(out)@ == old(out)@ + section_of(
            header@,
            path@,
            perms as int,
            strip_ext,
            overwrite,
        ),
{
    let mut item = InstallItem::new();
    item.target(path.to_owned());
    item.perms(perms);
    item.strip_ext(strip_ext);
    item.overwrite(overwrite);
    let rendered = item.to_toml_str();
    out.append(header);
    out.append(" = [\n\t");
    out.append(rendered.as_str());
    out.append("\n]\n");
    proof {
        assert(out@ =~= old(out)@ + section_of(header@, path@, perms as int, strip_ext, overwrite));
    }
}

/// The manifest text the guided creation builds from the chosen files.
pub fn charon_file_contents(
    bin: Option<String>,
    config: Option<String>,
    alias: Option<String>,
    lib: Option<String>,
) -> (r: String)
    ensures
        r@ == charon_file_spec(
            match bin {
                Option::Some(p) => Option::Some(p@),
                Option::None => Option::None,
            },
            match config {
                Option::Some(p) => Option::Some(p@),
                Option::None => Option::None,
            },
            match alias {
                Option::Some(p) => Option::Some(p@),
                Option::None => Option::None,
            },
            match lib {
                Option::Some(p) => Option::Some(p@),
                Option::None => Option::None,
            },
        ),
{
    let mut out = String::new();
    match &bin {
        Option::Some(p) => push_section(&mut out, "bin", p.as_str(), 0x755, true, true),
        Option::None => {},
    }
    let ghost after_bin = out@;
    match &config {
        Option::Some(p) => {
            push_section(&mut out, "config", p.as_str(), 0x644, false, true);
            push_section(&mut out, "localconfig", p.as_str(), 0x644, false, false);
        },
        Option::None => {},
    }
    match &alias {
        Option::Some(p) => push_section(&mut out, "alias", p.as_str(), 0x755, false, true),
        Option::None => {},
    }
    match &lib {
        Option::Some(p) => push_section(&mut out, "lib", p.as_str(), 0x755, false, true),
        Option::None => {},
    }
    proof {
        assert(out@ =~= charon_file_spec(
            match bin {
                Option::Some(p) => Option::Some(p@),
                Option::None => Option::None,
            },
            match config {
                Option::Some(p) => Option::Some(p@),
                Option::None => Option::None,
            },
            match alias {
                Option::Some(p) => Option::Some(p@),
                Option::None => Option::None,
            },
            match lib {
                Option::Some(p) => Option::Some(p@),
                Option::None => Option::None,
            },
        ));
    }
    out
}

/// A recorded file is orphaned by a new installation when the new list no
/// longer holds it and it is not a comment line.
pub open spec fn orphan_pred(new_files: Seq<Seq<char>>) -> spec_fn(Seq<char>) -> bool {
    |f: Seq<char>|
        !(exists|j: int| 0 <= j < new_files.len() && #[trigger] new_files[j] == f)
            && !crate::strutil::starts_with_seq(f, "#"@)
}

/// The files a previous installation recorded that the new one no longer
/// installs: those are removed, comment lines aside.
pub fn orphaned_files(old_files: &Vec<String>, new_files: &Vec<String>) -> (r: Vec<String>)
    ensures
        crate::records::strs_view(r@) == crate::records::strs_view(old_files@).filter(
            orphan_pred(crate::records::strs_view(new_files@)),
        ),
{
    let ghost news = crate::records::strs_view(new_files@);
    let ghost olds = crate::records::strs_view(old_files@);
    let ghost pred = orphan_pred(news);
    let mut out: Vec<String> = Vec::new();
    let mut i: usize = 0;
    proof {
        reveal(Seq::filter);
        assert(olds.take(0) =~= Seq::<Seq<char>>::empty());
        assert(Seq::<Seq<char>>::empty().filter(pred) =~= Seq::<Seq<char>>::empty());
        assert(crate::records::strs_view(out@) =~= Seq::<Seq<char>>::empty());
    }
    while i < old_files.len()
        invariant
            0 <= i <= old_files@.len(),
            news == crate::records::strs_view(new_files@),
            olds == crate::records::strs_view(old_files@),
            pred == orphan_pred(news),
            crate::records::strs_view(out@) == olds.take(i as int).filter(pred),
        decreases old_files@.len() - i,
    {
        let mut in_new = false;
        let mut j: usize = 0;
        while j < new_files.len()
            invariant
                0 <= j <= new_files@.len(),
                news == crate::records::strs_view(new_files@),
                olds == crate::records::strs_view(old_files@),
                i < old_files@.len(),
                in_new == exists|k: int|
                    0 <= k < j && #[trigger] news[k] == olds[i as int],
            decreases new_files@.len() - j,
        {
            if crate::strutil::str_eq(old_files[i].as_str(), new_files[j].as_str()) {
                proof {
                    assert(news[j as int] == olds[i as int]);
                }
                in_new = true;
            }
            j = j + 1;
        }
        let keep = !in_new && !crate::strutil::str_starts_with(old_files[i].as_str(), "#");
        let ghost out_pre = out@;
        if keep {
            out.push(old_files[i].clone());
        }
        proof {
            reveal(Seq::filter);
            assert(keep == (pred)(olds[i as int]));
            assert(olds.take(i + 1).drop_last() =~= olds.take(i as int));
            assert(olds.take(i + 1).last() == olds[i as int]);
            if keep {
                assert(crate::records::strs_view(out@) =~= crate::records::strs_view(
                    out_pre,
                ).push(olds[i as int]));
            }
        }
        i = i + 1;
    }
    proof {
        assert(olds.take(old_files@.len() as int) =~= olds);
    }
    out
}

/// Everything one installation will do: the items to copy, the
/// directories to create, and the name, version, description and source
/// recorded in the index.
pub struct InstallationCmd {
    pub items: Vec<InstallItem>,
    pub mkdirs: Vec<String>,
    pub name: String,
    pub source: Option<String>,
    pub version: Option<String>,
    pub description: Option<String>,
}

/// The index entry an installation writes: its name, then version and
/// description when known, then the source it came from (the manifest
/// installer itself by default).
pub open spec fn cmd_toml_spec(c: &InstallationCmd) -> Seq<char> {
    c.name@ + " = {"@ + (match c.version {
        Option::Some(v) => "version = \""@ + v@ + "\", "@,
        Option::None => Seq::empty(),
    }) + (match c.description {
        Option::Some(d) => "description= \""@ + d@ + "\", "@,
        Option::None => Seq::empty(),
    }) + "source = \""@ + (match c.source {
        Option::Some(s) => s@,
        Option::None => "charon"@,
    }) + "\" }"@
}

impl InstallationCmd {
    /// An empty installation with nothing to do and no name.
    pub fn new() -> (r: InstallationCmd)
        ensures
            r.items@.len() == 0,
            r.mkdirs@.len() == 0,
            r.name@.len() == 0,
            r.source is None,
            r.version is None,
            r.description is None,
    {
        InstallationCmd {
            items: Vec::new(),
            mkdirs: Vec::new(),
            name: String::new(),
            source: Option::None,
            version: Option::None,
            description: Option::None,
        }
    }

    /// Name the installation.
    pub fn set_name(&mut self, name: &str)
        ensures
            final(self).name@ == name@,
            final(self).items@ == old(self).items@,
            final(self).mkdirs@ == old(self).mkdirs@,
            final(self).source == old(self).source,
            final(self).version == old(self).version,
            final(self).description == old(self).description,
    {
        self.name = name.to_owned();
    }

    /// Add one item without a manifest: the destination gains the
    /// target's stem as its file name when the extension is stripped, and
    /// is used as given otherwise.
    pub fn add_simple_item(
        &mut self,
        target: String,
        dest: String,
        perms: u32,
        overwrite: bool,
        strip_ext: bool,
    )
        ensures
            final(self).items@.len() == old(self).items@.len() + 1,
            final(self).items@.take(old(self).items@.len() as int) == old(self).items@,
            ({
                let it = final(self).items@.last();
                &&& it.target@ == target@
                &&& it.dest@ == (if strip_ext {
                    path_join(dest@, file_stem_of(target@))
                } else {
                    dest@
                })
                &&& it.perms == perms
                &&& it.strip_ext == strip_ext
                &&& it.alias is None
                &&& it.overwrite == overwrite
                &&& it.comment@.len() == 0
            }),
            final(self).mkdirs@ == old(self).mkdirs@,
            final(self).name == old(self).name,
            final(self).source == old(self).source,
            final(self).version == old(self).version,
            final(self).description == old(self).description,
    {
        let dest = if strip_ext {
            let stem = file_stem(target.as_str());
            join_path(dest.as_str(), stem.as_str())
        } else {
            dest
        };
        let item = InstallItem {
            target,
            dest,
            perms,
            strip_ext,
            alias: Option::None,
            overwrite,
            comment: String::new(),
        };
        let ghost pre = self.items@;
        self.items.push(item);
        proof {
            assert(self.items@.take(pre.len() as int) =~= pre);
        }
    }

    /// Render the index entry for this installation.
    pub fn to_toml_str(&self) -> (r: String)
        ensures
            r@ == cmd_toml_spec(self),
    {
        let mut out = self.name.clone();
        out.append(" = {");
        match &self.version {
            Option::Some(v) => {
                out.append("version = \"");
                out.append(v.as_str());
                out.append("\", ");
            },
            Option::None => {},
        }
        match &self.description {
            Option::Some(d) => {
                out.append("description= \"");
                out.append(d.as_str());
                out.append("\", ");
            },
            Option::None => {},
        }
        out.append("source = \"");
        match &self.source {
            Option::Some(s) => {
                out.append(s.as_str());
            },
            Option::None => {
                out.append("charon");
            },
        }
        out.append("\" }");
        proof {
            assert(out@ =~= cmd_toml_spec(self));
        }
        out
    }
}

} // verus!
