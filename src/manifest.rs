use vstd::prelude::*;

use crate::text::{
    chars_of, find_char, find_char_exec, matches_at, replace_all, replaced, same_chars, split_chars,
    split_on, sub_chars,
};

verus! {

/// What a manifest says: the values of the fragment variables, and the extra
/// files as (asset name, destination) pairs in the order they were declared.
pub struct ManifestModel {
    pub before_dev_command: Option<Seq<char>>,
    pub before_build_command: Option<Seq<char>>,
    pub dev_path: Option<Seq<char>>,
    pub dist_dir: Option<Seq<char>>,
    pub with_global_tauri: Option<Seq<char>>,
    pub files: Seq<(Seq<char>, Seq<char>)>,
}

/// The parsed form of a template's manifest marker file.
pub struct Manifest {
    before_dev_command: Option<Vec<char>>,
    before_build_command: Option<Vec<char>>,
    dev_path: Option<Vec<char>>,
    dist_dir: Option<Vec<char>>,
    with_global_tauri: Option<Vec<char>>,
    files: Vec<(Vec<char>, Vec<char>)>,
}

/// A manifest line that is neither blank, a comment, a section header nor a
/// `key = value` pair; `line` counts from one.
#[derive(Debug, Clone, Copy, PartialEq, Eq, Structural)]
pub struct ManifestError {
    pub line: usize,
}

pub open spec fn opt_view(o: Option<Vec<char>>) -> Option<Seq<char>> {
    match o {
        Some(v) => Some(v@),
        None => None,
    }
}

pub open spec fn pair_view(p: (Vec<char>, Vec<char>)) -> (Seq<char>, Seq<char>) {
    (p.0@, p.1@)
}

impl View for Manifest {
    type V = ManifestModel;

    closed spec fn view(&self) -> ManifestModel {
        ManifestModel {
            before_dev_command: opt_view(self.before_dev_command),
            before_build_command: opt_view(self.before_build_command),
            dev_path: opt_view(self.dev_path),
            dist_dir: opt_view(self.dist_dir),
            with_global_tauri: opt_view(self.with_global_tauri),
            files: self.files@.map_values(|p: (Vec<char>, Vec<char>)| pair_view(p)),
        }
    }
}

pub open spec fn empty_model() -> ManifestModel {
    ManifestModel {
        before_dev_command: None,
        before_build_command: None,
        dev_path: None,
        dist_dir: None,
        with_global_tauri: None,
        files: seq![],
    }
}

pub open spec fn is_blank(c: char) -> bool {
    c == ' ' || c == '\t' || c == '\r'
}

pub open spec fn trim_start(s: Seq<char>) -> Seq<char>
    decreases s.len(),
{
    if s.len() > 0 && is_blank(s[0]) {
        trim_start(s.drop_first())
    } else {
        s
    }
}

pub open spec fn trim_end(s: Seq<char>) -> Seq<char>
    decreases s.len(),
{
    if s.len() > 0 && is_blank(s.last()) {
        trim_end(s.drop_last())
    } else {
        s
    }
}

pub open spec fn trim(s: Seq<char>) -> Seq<char> {
    trim_end(trim_start(s))
}

/// The text before the first `#`.
pub open spec fn strip_comment(s: Seq<char>) -> Seq<char> {
    match find_char(s, '#', 0) {
        Some(i) => s.subrange(0, i as int),
        None => s,
    }
}

pub open spec fn starts_with(s: Seq<char>, p: Seq<char>) -> bool {
    p.len() <= s.len() && s.subrange(0, p.len() as int) == p
}

/// A variable line sets the variable its key names; other keys are ignored.
pub open spec fn set_var(m: ManifestModel, key: Seq<char>, value: Seq<char>) -> ManifestModel {
    if key == "beforeDevCommand"@ {
        ManifestModel { before_dev_command: Some(value), ..m }
    } else if key == "beforeBuildCommand"@ {
        ManifestModel { before_build_command: Some(value), ..m }
    } else if key == "devPath"@ {
        ManifestModel { dev_path: Some(value), ..m }
    } else if key == "distDir"@ {
        ManifestModel { dist_dir: Some(value), ..m }
    } else if key == "withGlobalTauri"@ {
        ManifestModel { with_global_tauri: Some(value), ..m }
    } else {
        m
    }
}

/// One line of a manifest, applied to what the lines before it gave (whether
/// the `[files]` section has begun, and the manifest so far). Blank lines and
/// lines starting with `#` change nothing; `[files]` opens the files section;
/// any other line is `key = value`, where a `#` starts a comment in the value
/// and both sides are trimmed. A key `mobile.<key>` counts, as `<key>`, only
/// for the mobile target. `None` when the line has no `=`.
pub open spec fn line_step(in_files: bool, m: ManifestModel, line: Seq<char>, mobile: bool) -> Option<(bool, ManifestModel)> {
    let t = trim(line);
    if t.len() == 0 || t[0] == '#' {
        Some((in_files, m))
    } else if t == "[files]"@ {
        Some((true, m))
    } else {
        match find_char(t, '=', 0) {
            None => None,
            Some(i) => {
                let raw_key = trim(t.subrange(0, i as int));
                let value = trim(strip_comment(t.subrange(i + 1int, t.len() as int)));
                let for_mobile = starts_with(raw_key, "mobile."@);
                let key = if for_mobile { raw_key.subrange(7, raw_key.len() as int) } else { raw_key };
                if for_mobile && !mobile {
                    Some((in_files, m))
                } else if in_files {
                    Some((in_files, ManifestModel { files: m.files.push((key, value)), ..m }))
                } else {
                    Some((in_files, set_var(m, key, value)))
                }
            },
        }
    }
}

/// The first `n` lines, parsed; an error carries the one-based number of the
/// first line that is not well formed.
pub open spec fn parse_lines(lines: Seq<Seq<char>>, n: nat, mobile: bool) -> Result<(bool, ManifestModel), nat>
    decreases n,
{
    if n == 0 {
        Ok((false, empty_model()))
    } else {
        match parse_lines(lines, (n - 1) as nat, mobile) {
            Err(e) => Err(e),
            Ok(st) => match line_step(st.0, st.1, lines[n - 1], mobile) {
                Some(next) => Ok(next),
                None => Err(n),
            },
        }
    }
}

/// The manifest that the text `s` describes, or the number of its first bad line.
pub open spec fn parsed(s: Seq<char>, mobile: bool) -> Result<ManifestModel, nat> {
    let lines = split_on(s, '\n');
    match parse_lines(lines, lines.len(), mobile) {
        Ok(st) => Ok(st.1),
        Err(e) => Err(e),
    }
}

pub open spec fn or_default(o: Option<Seq<char>>, d: Seq<char>) -> Seq<char> {
    match o {
        Some(v) => v,
        None => d,
    }
}

/// The fragment variables of `m` substituted into `content`, in a fixed order;
/// an absent variable becomes empty text, and an absent `withGlobalTauri`
/// (which replaces its quoted placeholder) becomes `false`.
pub open spec fn manifest_replaced(m: ManifestModel, content: Seq<char>) -> Seq<char> {
    let a = replaced(content, "~fragment_before_dev_command~"@, or_default(m.before_dev_command, seq![]));
    let b = replaced(a, "~fragment_before_build_command~"@, or_default(m.before_build_command, seq![]));
    let c = replaced(b, "~fragment_dev_path~"@, or_default(m.dev_path, seq![]));
    let d = replaced(c, "~fragment_dist_dir~"@, or_default(m.dist_dir, seq![]));
    replaced(d, "\"~fragment_with_global_tauri~\""@, or_default(m.with_global_tauri, "false"@))
}

proof fn lemma_parse_error_sticks(lines: Seq<Seq<char>>, n: nat, k: nat, mobile: bool)
    requires
        n <= k,
        parse_lines(lines, n, mobile) is Err,
    ensures
        parse_lines(lines, k, mobile) == parse_lines(lines, n, mobile),
    decreases k,
{
    if k > n {
        lemma_parse_error_sticks(lines, n, (k - 1) as nat, mobile);
    }
}

fn trim_chars(s: &Vec<char>) -> (r: Vec<char>)
    ensures
        r@ == trim(s@),
{
    let mut lo: usize = 0;
    assert(s@.subrange(0, s@.len() as int) =~= s@);
    while lo < s.len() && (s[lo] == ' ' || s[lo] == '\t' || s[lo] == '\r')
        invariant
            lo <= s@.len(),
            trim_start(s@) == trim_start(s@.subrange(lo as int, s@.len() as int)),
        decreases s@.len() - lo,
    {
        assert(s@.subrange(lo as int, s@.len() as int).drop_first() =~= s@.subrange(lo + 1, s@.len() as int));
        lo += 1;
    }
    let mut hi: usize = s.len();
    assert(trim_start(s@) == s@.subrange(lo as int, hi as int));
    while hi > lo && (s[hi - 1] == ' ' || s[hi - 1] == '\t' || s[hi - 1] == '\r')
        invariant
            lo <= hi <= s@.len(),
            trim(s@) == trim_end(s@.subrange(lo as int, hi as int)),
        decreases hi,
    {
        assert(s@.subrange(lo as int, hi as int).drop_last() =~= s@.subrange(lo as int, hi - 1));
        hi -= 1;
    }
    sub_chars(s, lo, hi)
}

fn opt_or(o: &Option<Vec<char>>, d: Vec<char>) -> (r: Vec<char>)
    ensures
        r@ == or_default(opt_view(*o), d@),
{
    match o {
        Some(v) => sub_chars(v, 0, v.len()),
        None => d,
    }
}

impl Manifest {
    /// The extra files, as (asset name, destination) pairs in declaration order.
    pub fn files(&self) -> (r: &Vec<(Vec<char>, Vec<char>)>)
        ensures
            r@.map_values(|p: (Vec<char>, Vec<char>)| pair_view(p)) == self@.files,
    {
        &self.files
    }

    fn set_var(&mut self, key: &Vec<char>, value: Vec<char>)
        ensures
            final(self)@ == set_var(old(self)@, key@, value@),
    {
        if same_chars(key, &chars_of("beforeDevCommand")) {
            self.before_dev_command = Some(value);
        } else if same_chars(key, &chars_of("beforeBuildCommand")) {
            self.before_build_command = Some(value);
        } else if same_chars(key, &chars_of("devPath")) {
            self.dev_path = Some(value);
        } else if same_chars(key, &chars_of("distDir")) {
            self.dist_dir = Some(value);
        } else if same_chars(key, &chars_of("withGlobalTauri")) {
            self.with_global_tauri = Some(value);
        }
    }

    /// Applies one line; false when the line is not well formed.
    fn step(&mut self, in_files: &mut bool, line: &Vec<char>, mobile: bool) -> (ok: bool)
        ensures
            ok == line_step(*old(in_files), old(self)@, line@, mobile) is Some,
            ok ==> line_step(*old(in_files), old(self)@, line@, mobile) == Some((*final(in_files), final(self)@)),
    {
        let t = trim_chars(line);
        if t.len() == 0 || t[0] == '#' {
            return true;
        }
        if same_chars(&t, &chars_of("[files]")) {
            *in_files = true;
            return true;
        }
        match find_char_exec(&t, '=', 0) {
            None => false,
            Some(i) => {
                let raw_key = trim_chars(&sub_chars(&t, 0, i));
                let rest = sub_chars(&t, i + 1, t.len());
                let value = match find_char_exec(&rest, '#', 0) {
                    Some(h) => trim_chars(&sub_chars(&rest, 0, h)),
                    None => trim_chars(&rest),
                };
                let prefix = chars_of("mobile.");
                let for_mobile = matches_at(&raw_key, 0, &prefix);
                assert(prefix@.len() == 7) by {
                    reveal_strlit("mobile.");
                }
                let key = if for_mobile {
                    sub_chars(&raw_key, 7, raw_key.len())
                } else {
                    raw_key
                };
                if for_mobile && !mobile {
                    return true;
                }
                if *in_files {
                    let ghost before = self.files@;
                    self.files.push((key, value));
                    assert(self.files@.map_values(|p: (Vec<char>, Vec<char>)| pair_view(p))
                        =~= before.map_values(|p: (Vec<char>, Vec<char>)| pair_view(p)).push((key@, value@)));
                } else {
                    self.set_var(&key, value);
                }
                true
            },
        }
    }

    /// Parses the text of a manifest marker file.
    pub fn parse(s: &str, mobile: bool) -> (r: Result<Manifest, ManifestError>)
        ensures
            match r {
                Ok(m) => parsed(s@, mobile) == Ok::<ManifestModel, nat>(m@),
                Err(e) => parsed(s@, mobile) == Err::<ManifestModel, nat>(e.line as nat),
            },
    {
        let chars = chars_of(s);
        let lines = split_chars(&chars, '\n');
        let ghost lv = lines@.map_values(|p: Vec<char>| p@);
        let mut m = Manifest {
            before_dev_command: None,
            before_build_command: None,
            dev_path: None,
            dist_dir: None,
            with_global_tauri: None,
            files: Vec::new(),
        };
        assert(m@.files =~= Seq::<(Seq<char>, Seq<char>)>::empty());
        let mut in_files = false;
        let mut i: usize = 0;
        while i < lines.len()
            invariant
                i <= lines@.len(),
                lv == lines@.map_values(|p: Vec<char>| p@),
                lv == split_on(s@, '\n'),
                parse_lines(lv, i as nat, mobile) == Ok::<(bool, ManifestModel), nat>((in_files, m@)),
            decreases lines@.len() - i,
        {
            assert(lv[i as int] == lines@[i as int]@);
            let ok = m.step(&mut in_files, &lines[i], mobile);
            if !ok {
                proof {
                    lemma_parse_error_sticks(lv, (i + 1) as nat, lv.len(), mobile);
                }
                return Err(ManifestError { line: i + 1 });
            }
            i += 1;
        }
        Ok(m)
    }

    /// Substitutes the fragment variables into `content`.
    pub fn replace_vars(&self, content: &Vec<char>) -> (r: Vec<char>)
        ensures
            r@ == manifest_replaced(self@, content@),
    {
        proof {
            reveal_strlit("~fragment_before_dev_command~");
            reveal_strlit("~fragment_before_build_command~");
            reveal_strlit("~fragment_dev_path~");
            reveal_strlit("~fragment_dist_dir~");
            reveal_strlit("\"~fragment_with_global_tauri~\"");
        }
        let a = replace_all(content, &chars_of("~fragment_before_dev_command~"), &opt_or(&self.before_dev_command, Vec::new()));
        let b = replace_all(&a, &chars_of("~fragment_before_build_command~"), &opt_or(&self.before_build_command, Vec::new()));
        let c = replace_all(&b, &chars_of("~fragment_dev_path~"), &opt_or(&self.dev_path, Vec::new()));
        let d = replace_all(&c, &chars_of("~fragment_dist_dir~"), &opt_or(&self.dist_dir, Vec::new()));
        replace_all(&d, &chars_of("\"~fragment_with_global_tauri~\""), &opt_or(&self.with_global_tauri, chars_of("false")))
    }
}

} // verus!
