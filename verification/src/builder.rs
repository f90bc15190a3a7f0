//! The image builder's verified core: the manifest grammar (one
//! instruction per line: FROM, COPY, ENV, CMD, EXPOSE, WORKDIR, LABEL) and
//! the fold that turns a parsed manifest into the image's metadata record.
//!
//! The driver reads the manifest text, hands it here, and then performs
//! what only it can: copying the files a COPY step names and writing the
//! metadata record out.

use vstd::prelude::*;
use crate::json::{json_string_list, parse_string_list};
use crate::text::{
    copy_str, copy_strings, eq_keyword, find_char, find_char_spec, keyword_eq,
    lemma_find_char_spec, parse_u16, parse_u16_spec, seq_views, split_ws, split_ws_spec, trim,
    trim_char, trim_char_spec, trim_spec,
};

verus! {

/// One build instruction of the manifest.
#[derive(Debug)]
pub enum Instruction {
    /// The base image to start from.
    From(String),
    /// Copy a file or tree from the build context into the image.
    Copy { src: String, dst: String },
    /// Set an environment variable.
    Env { key: String, value: String },
    /// The command the image runs.
    Cmd(Vec<String>),
    /// A port the image exposes.
    Expose(u16),
    /// The working directory inside the image.
    Workdir(String),
    /// A free-form label.
    Label { key: String, value: String },
}

/// The mathematical model of one instruction.
pub enum InstructionModel {
    From(Seq<char>),
    Copy { src: Seq<char>, dst: Seq<char> },
    Env { key: Seq<char>, value: Seq<char> },
    Cmd(Seq<Seq<char>>),
    Expose(u16),
    Workdir(Seq<char>),
    Label { key: Seq<char>, value: Seq<char> },
}

impl View for Instruction {
    type V = InstructionModel;

    open spec fn view(&self) -> InstructionModel {
        match self {
            Instruction::From(b) => InstructionModel::From(b@),
            Instruction::Copy { src, dst } => InstructionModel::Copy { src: src@, dst: dst@ },
            Instruction::Env { key, value } => InstructionModel::Env { key: key@, value: value@ },
            Instruction::Cmd(c) => InstructionModel::Cmd(seq_views(c@)),
            Instruction::Expose(p) => InstructionModel::Expose(*p),
            Instruction::Workdir(d) => InstructionModel::Workdir(d@),
            Instruction::Label { key, value } => InstructionModel::Label {
                key: key@,
                value: value@,
            },
        }
    }
}

impl DeepView for Instruction {
    type V = InstructionModel;

    open spec fn deep_view(&self) -> InstructionModel {
        self.view()
    }
}

/// Why a manifest line was refused.
#[derive(Clone, Copy, Debug, PartialEq, Eq, Structural)]
pub enum ParseError {
    /// The line has no argument part at all.
    MissingArgument,
    /// COPY needs exactly a source and a destination.
    CopyArity,
    /// ENV needs `KEY=VALUE`.
    EnvFormat,
    /// A bracketed CMD is not a JSON array of strings.
    CmdJson,
    /// EXPOSE needs a valid port number.
    BadPort,
    /// LABEL needs `KEY=VALUE`.
    LabelFormat,
    /// The line names no known instruction.
    UnknownInstruction,
}

/// The grammar of one (already trimmed, non-empty, non-comment) line: a
/// keyword, matched ignoring ASCII case, a space, and the keyword's
/// argument form. The argument part is trimmed before it is read.
pub open spec fn parse_line_spec(line: Seq<char>) -> Result<InstructionModel, ParseError> {
    match find_char_spec(line, ' ') {
        None => Err(ParseError::MissingArgument),
        Some(i) => {
            let cmd = line.take(i);
            let args = trim_spec(line.skip(i + 1));
            if keyword_eq(cmd, "FROM"@) {
                Ok(InstructionModel::From(args))
            } else if keyword_eq(cmd, "COPY"@) {
                let parts = split_ws_spec(args);
                if parts.len() == 2 {
                    Ok(InstructionModel::Copy { src: parts[0], dst: parts[1] })
                } else {
                    Err(ParseError::CopyArity)
                }
            } else if keyword_eq(cmd, "ENV"@) {
                match find_char_spec(args, '=') {
                    Some(j) => Ok(
                        InstructionModel::Env { key: args.take(j), value: args.skip(j + 1) },
                    ),
                    None => Err(ParseError::EnvFormat),
                }
            } else if keyword_eq(cmd, "CMD"@) {
                if args.len() > 0 && args[0] == '[' {
                    match json_string_list(args) {
                        Some(v) => Ok(InstructionModel::Cmd(v)),
                        None => Err(ParseError::CmdJson),
                    }
                } else {
                    Ok(InstructionModel::Cmd(split_ws_spec(args)))
                }
            } else if keyword_eq(cmd, "EXPOSE"@) {
                match parse_u16_spec(args) {
                    Some(p) => Ok(InstructionModel::Expose(p)),
                    None => Err(ParseError::BadPort),
                }
            } else if keyword_eq(cmd, "WORKDIR"@) {
                Ok(InstructionModel::Workdir(args))
            } else if keyword_eq(cmd, "LABEL"@) {
                match find_char_spec(args, '=') {
                    Some(j) => Ok(
                        InstructionModel::Label {
                            key: args.take(j),
                            value: trim_char_spec(args.skip(j + 1), '"'),
                        },
                    ),
                    None => Err(ParseError::LabelFormat),
                }
            } else {
                Err(ParseError::UnknownInstruction)
            }
        },
    }
}

/// Parse one manifest line.
pub fn parse_line(line: &str) -> (r: Result<Instruction, ParseError>)
    ensures
        match r {
            Ok(ins) => parse_line_spec(line@) == Ok::<InstructionModel, ParseError>(ins@),
            Err(e) => parse_line_spec(line@) == Err::<InstructionModel, ParseError>(e),
        },
{
    let n = line.unicode_len();
    let i = match find_char(line, ' ') {
        None => {
            return Err(ParseError::MissingArgument);
        },
        Some(i) => i,
    };
    proof {
        lemma_find_char_spec(line@, ' ');
    }
    let cmd = line.substring_char(0, i);
    let args = trim(line.substring_char(i + 1, n));
    proof {
        assert(line@.subrange(0, i as int) =~= line@.take(i as int));
        assert(line@.subrange(i + 1, n as int) =~= line@.skip(i + 1));
    }
    if eq_keyword(cmd, "FROM") {
        Ok(Instruction::From(copy_str(args)))
    } else if eq_keyword(cmd, "COPY") {
        let parts = split_ws(args);
        if parts.len() == 2 {
            proof {
                assert(seq_views(parts@)[0] == parts@[0]@);
                assert(seq_views(parts@)[1] == parts@[1]@);
            }
            let dst = copy_str(parts[1].as_str());
            let src = copy_str(parts[0].as_str());
            Ok(Instruction::Copy { src, dst })
        } else {
            Err(ParseError::CopyArity)
        }
    } else if eq_keyword(cmd, "ENV") {
        let an = args.unicode_len();
        match find_char(args, '=') {
            Some(j) => {
                proof {
                    lemma_find_char_spec(args@, '=');
                    assert(args@.subrange(0, j as int) =~= args@.take(j as int));
                    assert(args@.subrange(j + 1, an as int) =~= args@.skip(j + 1));
                }
                let key = copy_str(args.substring_char(0, j));
                let value = copy_str(args.substring_char(j + 1, an));
                Ok(Instruction::Env { key, value })
            },
            None => Err(ParseError::EnvFormat),
        }
    } else if eq_keyword(cmd, "CMD") {
        let an = args.unicode_len();
        if an > 0 && args.get_char(0) == '[' {
            match parse_string_list(args) {
                Some(v) => Ok(Instruction::Cmd(v)),
                None => Err(ParseError::CmdJson),
            }
        } else {
            Ok(Instruction::Cmd(split_ws(args)))
        }
    } else if eq_keyword(cmd, "EXPOSE") {
        match parse_u16(args) {
            Some(p) => Ok(Instruction::Expose(p)),
            None => Err(ParseError::BadPort),
        }
    } else if eq_keyword(cmd, "WORKDIR") {
        Ok(Instruction::Workdir(copy_str(args)))
    } else if eq_keyword(cmd, "LABEL") {
        let an = args.unicode_len();
        match find_char(args, '=') {
            Some(j) => {
                proof {
                    lemma_find_char_spec(args@, '=');
                    assert(args@.subrange(0, j as int) =~= args@.take(j as int));
                    assert(args@.subrange(j + 1, an as int) =~= args@.skip(j + 1));
                }
                let key = copy_str(args.substring_char(0, j));
                let value = copy_str(trim_char(args.substring_char(j + 1, an), '"'));
                Ok(Instruction::Label { key, value })
            },
            None => Err(ParseError::LabelFormat),
        }
    } else {
        Err(ParseError::UnknownInstruction)
    }
}

/// What one raw manifest line contributes: nothing when, after trimming,
/// it is empty or a comment; otherwise its parsed instruction.
pub open spec fn line_entry_spec(line: Seq<char>) -> Result<
    Option<InstructionModel>,
    ParseError,
> {
    let t = trim_spec(line);
    if t.len() == 0 || t[0] == '#' {
        Ok(None)
    } else {
        match parse_line_spec(t) {
            Ok(m) => Ok(Some(m)),
            Err(e) => Err(e),
        }
    }
}

/// The whole manifest: its lines in order, blank lines and comments
/// skipped, stopping at the first refused line.
pub open spec fn parse_content_spec(content: Seq<char>) -> Result<
    Seq<InstructionModel>,
    ParseError,
>
    decreases content.len(),
    when true
    via parse_content_spec_decreases
{
    match find_char_spec(content, '\n') {
        None => match line_entry_spec(content) {
            Ok(Some(m)) => Ok(seq![m]),
            Ok(None) => Ok(Seq::empty()),
            Err(e) => Err(e),
        },
        Some(i) => match line_entry_spec(content.take(i)) {
            Err(e) => Err(e),
            Ok(head) => match parse_content_spec(content.skip(i + 1)) {
                Err(e) => Err(e),
                Ok(rest) => Ok(
                    match head {
                        Some(m) => seq![m] + rest,
                        None => rest,
                    },
                ),
            },
        },
    }
}

#[via_fn]
proof fn parse_content_spec_decreases(content: Seq<char>) {
    lemma_find_char_spec(content, '\n');
}

/// A parsed manifest: its instructions in file order.
#[derive(Debug)]
pub struct Novafile {
    pub instructions: Vec<Instruction>,
}

impl Novafile {
    fn parse_entry(line: &str) -> (r: Result<Option<Instruction>, ParseError>)
        ensures
            match r {
                Ok(Some(ins)) => line_entry_spec(line@) == Ok::<Option<InstructionModel>, ParseError>(Some(ins@)),
                Ok(None) => line_entry_spec(line@) == Ok::<Option<InstructionModel>, ParseError>(None),
                Err(e) => line_entry_spec(line@) == Err::<Option<InstructionModel>, ParseError>(
                    e,
                ),
            },
    {
        let t = trim(line);
        if t.unicode_len() == 0 {
            return Ok(None);
        }
        if t.get_char(0) == '#' {
            return Ok(None);
        }
        match parse_line(t) {
            Ok(ins) => Ok(Some(ins)),
            Err(e) => Err(e),
        }
    }

    fn parse_rest(content: &str) -> (r: Result<Vec<Instruction>, ParseError>)
        ensures
            match r {
                Ok(v) => parse_content_spec(content@) == Ok::<Seq<InstructionModel>, ParseError>(v.deep_view()),
                Err(e) => parse_content_spec(content@) == Err::<Seq<InstructionModel>, ParseError>(
                    e,
                ),
            },
        decreases content@.len(),
    {
        let n = content.unicode_len();
        match find_char(content, '\n') {
            None => match Self::parse_entry(content) {
                Err(e) => Err(e),
                Ok(None) => {
                    let v: Vec<Instruction> = Vec::new();
                    proof {
                        assert(v.deep_view() =~= Seq::<InstructionModel>::empty());
                    }
                    Ok(v)
                },
                Ok(Some(ins)) => {
                    let ghost m = ins@;
                    let mut v: Vec<Instruction> = Vec::new();
                    v.push(ins);
                    proof {
                        assert(v.deep_view() =~= seq![m]);
                    }
                    Ok(v)
                },
            },
            Some(i) => {
                proof {
                    lemma_find_char_spec(content@, '\n');
                    assert(content@.subrange(0, i as int) =~= content@.take(i as int));
                    assert(content@.subrange(i + 1, n as int) =~= content@.skip(i + 1));
                }
                match Self::parse_entry(content.substring_char(0, i)) {
                    Err(e) => Err(e),
                    Ok(head) => {
                        let mut rest = match Self::parse_rest(content.substring_char(i + 1, n)) {
                            Err(e) => {
                                return Err(e);
                            },
                            Ok(rest) => rest,
                        };
                        match head {
                            None => Ok(rest),
                            Some(ins) => {
                                let ghost m = ins@;
                                let ghost rm = rest.deep_view();
                                let ghost old_rest = rest@;
                                let mut v: Vec<Instruction> = Vec::new();
                                v.push(ins);
                                v.append(&mut rest);
                                proof {
                                    assert forall|k: int| 0 <= k < v@.len() implies v@[k].deep_view()
                                        == (seq![m] + rm)[k] by {
                                        if k > 0 {
                                            assert(v@[k] == old_rest[k - 1]);
                                            assert(rm[k - 1] == old_rest[k - 1].deep_view());
                                        }
                                    }
                                    assert(v.deep_view() =~= seq![m] + rm);
                                }
                                Ok(v)
                            },
                        }
                    },
                }
            },
        }
    }

    /// Parse a whole manifest text.
    pub fn parse(content: &str) -> (r: Result<Novafile, ParseError>)
        ensures
            match r {
                Ok(nf) => parse_content_spec(content@) == Ok::<Seq<InstructionModel>, ParseError>(nf.instructions.deep_view()),
                Err(e) => parse_content_spec(content@) == Err::<Seq<InstructionModel>, ParseError>(
                    e,
                ),
            },
    {
        match Self::parse_rest(content) {
            Ok(instructions) => Ok(Novafile { instructions }),
            Err(e) => Err(e),
        }
    }
}

/// The metadata record a build produces.
#[derive(Debug)]
pub struct ImageMetadata {
    pub tag: String,
    pub base: String,
    pub env: Vec<(String, String)>,
    pub cmd: Vec<String>,
    pub expose: Vec<u16>,
    pub workdir: String,
    pub labels: Vec<(String, String)>,
}

/// The mathematical model of a metadata record.
#[verifier::ext_equal]
pub struct MetadataModel {
    pub tag: Seq<char>,
    pub base: Seq<char>,
    pub env: Seq<(Seq<char>, Seq<char>)>,
    pub cmd: Seq<Seq<char>>,
    pub expose: Seq<u16>,
    pub workdir: Seq<char>,
    pub labels: Seq<(Seq<char>, Seq<char>)>,
}

/// The pairs of character sequences of a vector of string pairs.
pub open spec fn pair_views(ps: Seq<(String, String)>) -> Seq<(Seq<char>, Seq<char>)> {
    Seq::new(ps.len(), |i: int| (ps[i].0@, ps[i].1@))
}

impl View for ImageMetadata {
    type V = MetadataModel;

    open spec fn view(&self) -> MetadataModel {
        MetadataModel {
            tag: self.tag@,
            base: self.base@,
            env: pair_views(self.env@),
            cmd: seq_views(self.cmd@),
            expose: self.expose@,
            workdir: self.workdir@,
            labels: pair_views(self.labels@),
        }
    }
}

/// The metadata a build starts from: base `scratch`, root working
/// directory, nothing else.
pub open spec fn initial_metadata(tag: Seq<char>) -> MetadataModel {
    MetadataModel {
        tag: tag,
        base: "scratch"@,
        env: Seq::empty(),
        cmd: Seq::empty(),
        expose: Seq::empty(),
        workdir: "/"@,
        labels: Seq::empty(),
    }
}

/// What one instruction does to the metadata. A COPY changes files, not
/// metadata; FROM, CMD and WORKDIR replace their field; ENV, EXPOSE and
/// LABEL accumulate in order.
pub open spec fn apply_instruction(m: MetadataModel, ins: InstructionModel) -> MetadataModel {
    match ins {
        InstructionModel::From(b) => MetadataModel {
            tag: m.tag,
            base: b,
            env: m.env,
            cmd: m.cmd,
            expose: m.expose,
            workdir: m.workdir,
            labels: m.labels,
        },
        InstructionModel::Copy { src, dst } => m,
        InstructionModel::Env { key, value } => MetadataModel {
            tag: m.tag,
            base: m.base,
            env: m.env.push((key, value)),
            cmd: m.cmd,
            expose: m.expose,
            workdir: m.workdir,
            labels: m.labels,
        },
        InstructionModel::Cmd(c) => MetadataModel {
            tag: m.tag,
            base: m.base,
            env: m.env,
            cmd: c,
            expose: m.expose,
            workdir: m.workdir,
            labels: m.labels,
        },
        InstructionModel::Expose(p) => MetadataModel {
            tag: m.tag,
            base: m.base,
            env: m.env,
            cmd: m.cmd,
            expose: m.expose.push(p),
            workdir: m.workdir,
            labels: m.labels,
        },
        InstructionModel::Workdir(d) => MetadataModel {
            tag: m.tag,
            base: m.base,
            env: m.env,
            cmd: m.cmd,
            expose: m.expose,
            workdir: d,
            labels: m.labels,
        },
        InstructionModel::Label { key, value } => MetadataModel {
            tag: m.tag,
            base: m.base,
            env: m.env,
            cmd: m.cmd,
            expose: m.expose,
            workdir: m.workdir,
            labels: m.labels.push((key, value)),
        },
    }
}

/// The metadata after every instruction has been applied in order.
pub open spec fn fold_metadata(m: MetadataModel, is: Seq<InstructionModel>) -> MetadataModel
    decreases is.len(),
{
    if is.len() == 0 {
        m
    } else {
        fold_metadata(apply_instruction(m, is[0]), is.drop_first())
    }
}

/// The copy steps of a manifest: each COPY's source and destination, in
/// order.
pub open spec fn copies_of(is: Seq<InstructionModel>) -> Seq<(Seq<char>, Seq<char>)>
    decreases is.len(),
{
    if is.len() == 0 {
        Seq::empty()
    } else {
        let rest = copies_of(is.drop_first());
        match is[0] {
            InstructionModel::Copy { src, dst } => seq![(src, dst)] + rest,
            _ => rest,
        }
    }
}

/// A build: a parsed manifest, the directory COPY sources are taken from,
/// and the image tag.
#[derive(Debug)]
pub struct ImageBuilder {
    pub novafile: Novafile,
    pub context_dir: String,
    pub tag: String,
}

impl ImageBuilder {
    /// Parse the manifest text and stage a build of it.
    pub fn new(novafile_text: &str, context_dir: &str, tag: String) -> (r: Result<
        ImageBuilder,
        ParseError,
    >)
        ensures
            match r {
                Ok(b) => {
                    &&& parse_content_spec(novafile_text@) == Ok::<
                        Seq<InstructionModel>,
                        ParseError,
                    >(b.novafile.instructions.deep_view())
                    &&& b.context_dir@ == context_dir@
                    &&& b.tag@ == tag@
                },
                Err(e) => parse_content_spec(novafile_text@) == Err::<
                    Seq<InstructionModel>,
                    ParseError,
                >(e),
            },
    {
        match Novafile::parse(novafile_text) {
            Ok(novafile) => Ok(
                ImageBuilder { novafile, context_dir: copy_str(context_dir), tag },
            ),
            Err(e) => Err(e),
        }
    }

    /// The metadata record the staged build produces: the manifest's
    /// instructions folded, in order, over the initial metadata.
    pub fn metadata(&self) -> (r: ImageMetadata)
        ensures
            r@ == fold_metadata(
                initial_metadata(self.tag@),
                self.novafile.instructions.deep_view(),
            ),
    {
        let mut md = ImageMetadata {
            tag: copy_str(self.tag.as_str()),
            base: copy_str("scratch"),
            env: Vec::new(),
            cmd: Vec::new(),
            expose: Vec::new(),
            workdir: copy_str("/"),
            labels: Vec::new(),
        };
        proof {
            assert(md@ =~= initial_metadata(self.tag@));
        }
        let ghost all = self.novafile.instructions.deep_view();
        let n = self.novafile.instructions.len();
        let mut k: usize = 0;
        proof {
            assert(all.skip(0) =~= all);
        }
        while k < n
            invariant
                n == self.novafile.instructions@.len(),
                all == self.novafile.instructions.deep_view(),
                k <= n,
                fold_metadata(initial_metadata(self.tag@), all) == fold_metadata(
                    md@,
                    all.skip(k as int),
                ),
            decreases n - k,
        {
            let ghost before = md@;
            match &self.novafile.instructions[k] {
                Instruction::From(b) => {
                    md.base = copy_str(b.as_str());
                },
                Instruction::Copy { src, dst } => {
                },
                Instruction::Env { key, value } => {
                    md.env.push((copy_str(key.as_str()), copy_str(value.as_str())));
                },
                Instruction::Cmd(c) => {
                    md.cmd = copy_strings(c);
                },
                Instruction::Expose(p) => {
                    md.expose.push(*p);
                },
                Instruction::Workdir(d) => {
                    md.workdir = copy_str(d.as_str());
                },
                Instruction::Label { key, value } => {
                    md.labels.push((copy_str(key.as_str()), copy_str(value.as_str())));
                },
            }
            proof {
                assert(all[k as int] == self.novafile.instructions@[k as int].deep_view());
                assert(md@ =~= apply_instruction(before, all[k as int]));
                assert(all.skip(k as int).drop_first() =~= all.skip(k + 1));
                assert(all.skip(k as int)[0] == all[k as int]);
            }
            k = k + 1;
        }
        proof {
            assert(all.skip(n as int) =~= Seq::<InstructionModel>::empty());
        }
        md
    }

    /// The copy steps the staged build will perform, in manifest order.
    pub fn copy_steps(&self) -> (r: Vec<(String, String)>)
        ensures
            pair_views(r@) == copies_of(self.novafile.instructions.deep_view()),
    {
        let ghost all = self.novafile.instructions.deep_view();
        let n = self.novafile.instructions.len();
        let mut steps: Vec<(String, String)> = Vec::new();
        let mut k: usize = 0;
        proof {
            assert(all.skip(0) =~= all);
            assert(pair_views(steps@) + copies_of(all) =~= copies_of(all));
        }
        while k < n
            invariant
                n == self.novafile.instructions@.len(),
                all == self.novafile.instructions.deep_view(),
                k <= n,
                copies_of(all) == pair_views(steps@) + copies_of(all.skip(k as int)),
            decreases n - k,
        {
            let ghost before = steps@;
            match &self.novafile.instructions[k] {
                Instruction::Copy { src, dst } => {
                    steps.push((copy_str(src.as_str()), copy_str(dst.as_str())));
                    proof {
                        assert(pair_views(steps@) =~= pair_views(before) + seq![
                            (src@, dst@),
                        ]);
                    }
                },
                _ => {
                },
            }
            proof {
                assert(all[k as int] == self.novafile.instructions@[k as int].deep_view());
                assert(all.skip(k as int).drop_first() =~= all.skip(k + 1));
                assert(all.skip(k as int)[0] == all[k as int]);
                assert(copies_of(all) =~= pair_views(steps@) + copies_of(all.skip(k + 1)));
            }
            k = k + 1;
        }
        proof {
            assert(copies_of(all.skip(n as int)) =~= Seq::<(Seq<char>, Seq<char>)>::empty());
            assert(pair_views(steps@) + Seq::<(Seq<char>, Seq<char>)>::empty() =~= pair_views(
                steps@,
            ));
        }
        steps
    }
}


} // verus!
