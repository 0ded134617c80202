//! Where a converted image is written: the output target of one source file,
//! and the staging file through which an image is replaced in place.

use crate::extension::{
    fold_case, lemma_supported_shape, lemma_written_extensions_unsupported, supported_extension,
};
use crate::naming::{
    dir_prefix, extension_of, join_path, joined, last_dot, lemma_last_dot,
    lemma_last_dot_unique, renamed, split_point, stem_of, supported_name, with_extension,
};
use vstd::prelude::*;

verus! {

/// The paths of one conversion: the file read, the file written, and the
/// staging file that is written first and then renamed over the target when
/// the target is the source itself.
#[derive(Clone, Debug, PartialEq, Eq)]
pub struct WritePlan {
    pub source: String,
    pub target: String,
    pub staging: Option<String>,
}

/// A `WritePlan` with each path as a sequence of characters.
pub struct WritePlanView {
    pub source: Seq<char>,
    pub target: Seq<char>,
    pub staging: Option<Seq<char>>,
}

impl View for WritePlan {
    type V = WritePlanView;

    open spec fn view(&self) -> WritePlanView {
        WritePlanView {
            source: self.source@,
            target: self.target@,
            staging: match self.staging {
                Some(s) => Some(s@),
                None => None,
            },
        }
    }
}

/// One step of writing a converted image.
#[derive(Clone, Debug, PartialEq, Eq)]
pub enum WriteStep {
    /// Write the encoded bytes to `path`.
    Write { path: String },
    /// Rename `from` to `to`, replacing what is there in one step.
    Rename { from: String, to: String },
}

/// A `WriteStep` with each path as a sequence of characters.
pub enum WriteStepView {
    Write { path: Seq<char> },
    Rename { from: Seq<char>, to: Seq<char> },
}

impl View for WriteStep {
    type V = WriteStepView;

    open spec fn view(&self) -> WriteStepView {
        match self {
            WriteStep::Write { path } => WriteStepView::Write { path: path@ },
            WriteStep::Rename { from, to } => WriteStepView::Rename { from: from@, to: to@ },
        }
    }
}

/// The steps of a plan. Without a staging file the bytes are written to the
/// target. With one they are written to the staging file, which is then
/// renamed over the target.
pub open spec fn write_steps(plan: WritePlanView) -> Seq<WriteStepView> {
    match plan.staging {
        Some(staging) => seq![
            WriteStepView::Write { path: staging },
            WriteStepView::Rename { from: staging, to: plan.target },
        ],
        None => seq![WriteStepView::Write { path: plan.target }],
    }
}

impl WritePlan {
    /// The steps that carry the plan out, in order.
    pub fn steps(&self) -> (steps: Vec<WriteStep>)
        ensures
            steps@.map_values(|s: WriteStep| s@) == write_steps(self@),
    {
        let mut steps: Vec<WriteStep> = Vec::new();
        match &self.staging {
            Some(staging) => {
                steps.push(WriteStep::Write { path: staging.clone() });
                steps.push(WriteStep::Rename { from: staging.clone(), to: self.target.clone() });
            },
            None => {
                steps.push(WriteStep::Write { path: self.target.clone() });
            },
        }
        assert(steps@.map_values(|s: WriteStep| s@) =~= write_steps(self@));
        steps
    }
}

/// The name under which a converted image is written: the source's name
/// where the original name is kept, and otherwise that name with its
/// extension rewritten to `webp`, whichever directory it is written to.
pub open spec fn target_name(name: Seq<char>, keep_original_ext: bool) -> Seq<char> {
    if keep_original_ext {
        name
    } else {
        renamed(name, "webp"@)
    }
}

/// The path a converted image is written to: its target name in the output
/// directory, or beside the source where there is none.
pub open spec fn target_path(
    input_dir: Seq<char>,
    name: Seq<char>,
    output_dir: Option<Seq<char>>,
    keep_original_ext: bool,
) -> Seq<char> {
    match output_dir {
        Some(dir) => joined(dir, target_name(name, keep_original_ext)),
        None => joined(input_dir, target_name(name, keep_original_ext)),
    }
}

/// The staging file of a source: beside it, with the extension `webp.tmp`.
pub open spec fn staging_path(input_dir: Seq<char>, name: Seq<char>) -> Seq<char> {
    joined(input_dir, renamed(name, "webp.tmp"@))
}

/// The plan for converting the entry `name` of `input_dir`. A staging file is
/// planned exactly when the target is the very path of the source.
pub open spec fn write_plan(
    input_dir: Seq<char>,
    name: Seq<char>,
    output_dir: Option<Seq<char>>,
    keep_original_ext: bool,
) -> WritePlanView {
    let source = joined(input_dir, name);
    let target = target_path(input_dir, name, output_dir, keep_original_ext);
    WritePlanView {
        source,
        target,
        staging: if target == source {
            Some(staging_path(input_dir, name))
        } else {
            None
        },
    }
}

/// Plans the conversion of the entry `name` of `input_dir`: where the result
/// goes, and whether it goes there through a staging file.
pub fn plan_write(
    input_dir: &str,
    name: &str,
    output_dir: Option<&str>,
    keep_original_ext: bool,
) -> (plan: WritePlan)
    ensures
        plan@ == write_plan(
            input_dir@,
            name@,
            match output_dir {
                Some(dir) => Some(dir@),
                None => None,
            },
            keep_original_ext,
        ),
{
    let source = join_path(input_dir, name);
    let target_dir = match output_dir {
        Some(dir) => dir,
        None => input_dir,
    };
    let target = if keep_original_ext {
        join_path(target_dir, name)
    } else {
        let renamed_name = with_extension(name, "webp");
        join_path(target_dir, renamed_name.as_str())
    };
    let staging = if target == source {
        let staged = with_extension(name, "webp.tmp");
        Some(join_path(input_dir, staged.as_str()))
    } else {
        None
    };
    WritePlan { source, target, staging }
}

/// A path that ends in a dot and an extension without dots has its last dot
/// just before that extension.
pub proof fn lemma_last_dot_of_suffix(front: Seq<char>, ext: Seq<char>)
    requires
        forall|i: int| 0 <= i < ext.len() ==> ext[i] != '.',
    ensures
        last_dot(front + seq!['.'] + ext) == front.len(),
        (front + seq!['.'] + ext).skip(front.len() as int + 1) == ext,
{
    let s = front + seq!['.'] + ext;
    assert(s[front.len() as int] == '.');
    assert forall|j: int| front.len() < j < s.len() implies s[j] != '.' by {
        assert(s[j] == ext[j - front.len() - 1]);
    }
    lemma_last_dot_unique(s, front.len() as int);
    assert(s.skip(front.len() as int + 1) =~= ext);
}

/// A name splits at its last dot into its stem, a dot and its extension, and
/// the extension holds no dot.
pub proof fn lemma_name_parts(name: Seq<char>)
    requires
        extension_of(name) is Some,
    ensures
        name == stem_of(name) + seq!['.'] + extension_of(name)->0,
        stem_of(name).len() > 0,
        forall|i: int|
            0 <= i < extension_of(name)->0.len() ==> (#[trigger] extension_of(name)->0[i]) != '.',
{
    lemma_last_dot(name);
    let i = split_point(name)->0;
    let ext = extension_of(name)->0;
    assert(name =~= name.take(i) + seq!['.'] + name.skip(i + 1));
    assert forall|k: int| 0 <= k < ext.len() implies (#[trigger] ext[k]) != '.' by {
        assert(ext[k] == name[i + 1 + k]);
    }
}

/// What the library writes it does not read again: a name given the extension
/// `webp` or `webp.tmp` is not a supported name, so a second run over the same
/// directories plans the conversions of the first and no others.
pub proof fn lemma_written_names_unsupported(name: Seq<char>)
    ensures
        !supported_name(renamed(name, "webp"@)),
        !supported_name(renamed(name, "webp.tmp"@)),
{
    reveal_strlit("webp");
    reveal_strlit("webp.tmp");
    reveal_strlit("tmp");
    let stem = stem_of(name);
    let webp = renamed(name, "webp"@);
    assert(webp == stem + seq!['.'] + "webp"@);
    lemma_last_dot_of_suffix(stem, "webp"@);
    if extension_of(webp) is Some {
        assert(extension_of(webp)->0 == "webp"@);
        assert(fold_case("webp"@) =~= "webp"@);
        lemma_written_extensions_unsupported("webp"@);
    }
    let tmp = renamed(name, "webp.tmp"@);
    let front = stem + seq!['.'] + "webp"@;
    assert(tmp =~= front + seq!['.'] + "tmp"@);
    lemma_last_dot_of_suffix(front, "tmp"@);
    if extension_of(tmp) is Some {
        assert(extension_of(tmp)->0 == "tmp"@);
        assert(fold_case("tmp"@) =~= "tmp"@);
        lemma_written_extensions_unsupported("tmp"@);
    }
}

/// Rewriting the extension never aims at the source: for a supported name
/// whose original extension is not kept, the target differs from the source,
/// whatever the directories. A target that is the source itself therefore
/// means that the original name is kept.
pub proof fn lemma_rewritten_target_is_new(
    input_dir: Seq<char>,
    name: Seq<char>,
    output_dir: Option<Seq<char>>,
)
    requires
        supported_name(name),
    ensures
        target_path(input_dir, name, output_dir, false) != joined(input_dir, name),
        write_plan(input_dir, name, output_dir, false).staging is None,
{
    reveal_strlit("webp");
    let ext = extension_of(name)->0;
    lemma_name_parts(name);
    lemma_supported_shape(ext);
    let source = joined(input_dir, name);
    let source_front = dir_prefix(input_dir) + stem_of(name);
    assert(source =~= source_front + seq!['.'] + ext);
    lemma_last_dot_of_suffix(source_front, ext);
    let dir = match output_dir {
        Some(d) => d,
        None => input_dir,
    };
    let target = target_path(input_dir, name, output_dir, false);
    let target_front = dir_prefix(dir) + stem_of(name);
    assert(target =~= target_front + seq!['.'] + "webp"@);
    lemma_last_dot_of_suffix(target_front, "webp"@);
    if target == source {
        assert(ext == "webp"@);
        assert(fold_case("webp"@) =~= "webp"@);
        lemma_written_extensions_unsupported(ext);
    }
}

/// Keeping the original name with no output directory aims at the source
/// itself, so the write goes through the staging file.
pub proof fn lemma_kept_name_in_place(input_dir: Seq<char>, name: Seq<char>)
    ensures
        target_path(input_dir, name, None, true) == joined(input_dir, name),
        write_plan(input_dir, name, None, true).staging == Some(staging_path(input_dir, name)),
{
}

/// The staging file is never the source.
pub proof fn lemma_staging_is_not_source(input_dir: Seq<char>, name: Seq<char>)
    ensures
        staging_path(input_dir, name) != joined(input_dir, name),
{
    reveal_strlit("webp.tmp");
    reveal_strlit("tmp");
    let stem = stem_of(name);
    let staged = renamed(name, "webp.tmp"@);
    let front = stem + seq!['.', 'w', 'e', 'b', 'p'];
    assert(staged =~= front + seq!['.'] + "tmp"@);
    lemma_last_dot_of_suffix(front, "tmp"@);
    if staging_path(input_dir, name) == joined(input_dir, name) {
        let p = dir_prefix(input_dir);
        assert((p + staged).skip(p.len() as int) =~= staged);
        assert((p + name).skip(p.len() as int) =~= name);
        assert(staged == name);
        assert(staged.len() == stem.len() + 9);
        assert(stem.len() <= name.len()) by {
            lemma_last_dot(name);
        }
        assert(split_point(name) == Some(front.len() as int)) by {
            assert(name != seq!['.', '.']) by {
                assert(seq!['.', '.'].len() == 2);
            }
        }
        assert(stem_of(name).len() == front.len());
    }
}

/// A plan writes through a staging file exactly when its target is its
/// source, and the staging file is then neither of them: what is written
/// first cannot touch the source, which stays whole until the rename
/// replaces it.
pub proof fn lemma_staging_protects_source(
    input_dir: Seq<char>,
    name: Seq<char>,
    output_dir: Option<Seq<char>>,
    keep_original_ext: bool,
)
    ensures
        ({
            let plan = write_plan(input_dir, name, output_dir, keep_original_ext);
            &&& plan.staging is Some <==> plan.target == plan.source
            &&& plan.staging is Some ==> plan.staging->0 != plan.source && plan.staging->0
                != plan.target
        }),
{
    lemma_staging_is_not_source(input_dir, name);
}

/// No plan writes bytes to its source. Where the target is the source, the
/// bytes go to the staging file and the source is replaced by the rename
/// alone, so the source holds the old image or the new one and never a part
/// of either. The last step of every plan leaves the new image at the target.
pub proof fn lemma_source_is_replaced_by_rename_only(
    input_dir: Seq<char>,
    name: Seq<char>,
    output_dir: Option<Seq<char>>,
    keep_original_ext: bool,
)
    ensures
        ({
            let plan = write_plan(input_dir, name, output_dir, keep_original_ext);
            let steps = write_steps(plan);
            &&& forall|i: int|
                0 <= i < steps.len() && (#[trigger] steps[i]) is Write ==> steps[i]->path
                    != plan.source
            &&& match steps.last() {
                WriteStepView::Write { path } => path == plan.target,
                WriteStepView::Rename { from, to } => to == plan.target && steps[0]
                    == (WriteStepView::Write { path: from }),
            }
        }),
{
    lemma_staging_protects_source(input_dir, name, output_dir, keep_original_ext);
}

} // verus!
