//! The prompt context of a code-generation request, composed from the
//! question and from what was fetched for the samples, tables, files and
//! directories it cites.

use vstd::prelude::*;

use crate::storage::CodeSample;
use crate::task::TaskError;

verus! {

/// A resource that a question cites: a table of a data source (`name` the
/// table, `data` the data source's id) or a file (`name` its path).
#[derive(Debug, Clone)]
pub struct ResourceMeta {
    pub resource_type: String,
    pub name: String,
    pub data: String,
}

/// A code-generation request as the user submitted it.
#[derive(Debug, Clone)]
pub struct CodeGenRequest {
    pub question: String,
    pub sample_ids: Vec<String>,
    pub resources: Vec<ResourceMeta>,
    pub auto_detect_dir: bool,
    pub current_src_dir: String,
}

#[derive(Debug, Clone, Copy, PartialEq, Eq, Structural)]
pub enum ResourceKind {
    Table,
    File,
}

pub open spec fn kind_of(t: Seq<char>) -> Option<ResourceKind> {
    if t == "table"@ {
        Some(ResourceKind::Table)
    } else if t == "file"@ {
        Some(ResourceKind::File)
    } else {
        None
    }
}

/// `title`, then `name`, then `body` inside a fenced block.
pub open spec fn fenced(title: Seq<char>, name: Seq<char>, body: Seq<char>) -> Seq<char> {
    title + name + "\n```\n"@ + body + "\n```"@
}

pub open spec fn sample_block(s: CodeSample) -> Seq<char> {
    fenced("##引用代码示例： "@, s.name@, s.content@)
}

/// The part of the context for one resource, given the text fetched for it:
/// a table's schema, or a file's content.
pub open spec fn resource_block(r: ResourceMeta, text: Seq<char>) -> Seq<char> {
    match kind_of(r.resource_type@) {
        Some(ResourceKind::Table) => fenced(
            "##引用数据表schema："@,
            r.name@,
            "##引用数据表schema: "@ + text + "\n"@,
        ),
        Some(ResourceKind::File) => fenced(
            "##引用代码文件内容："@,
            r.data@,
            fenced("##引用文件： "@, r.name@, text),
        ),
        None => Seq::empty(),
    }
}

pub open spec fn samples_text(s: Seq<CodeSample>) -> Seq<char>
    decreases s.len(),
{
    if s.len() == 0 {
        Seq::empty()
    } else {
        samples_text(s.drop_last()) + sample_block(s.last())
    }
}

/// The blocks of the first `k` resources, in order.
pub open spec fn resources_text(rs: Seq<ResourceMeta>, ts: Seq<String>, k: int) -> Seq<char>
    decreases k,
{
    if k <= 0 {
        Seq::empty()
    } else {
        resources_text(rs, ts, k - 1) + resource_block(rs[k - 1], ts[k - 1]@)
    }
}

/// A directory path with `\` turned into `/`.
pub open spec fn with_slashes(p: Seq<char>) -> Seq<char> {
    p.map_values(|c: char| if c == '\\' { '/' } else { c })
}

pub open spec fn dir_lines(dirs: Seq<String>) -> Seq<char>
    decreases dirs.len(),
{
    if dirs.len() == 0 {
        Seq::empty()
    } else {
        dir_lines(dirs.drop_last()) + "/"@ + with_slashes(dirs.last()@) + "\n"@
    }
}

/// The directory tree as a fenced list, one directory per line.
pub open spec fn tree_text(dirs: Seq<String>) -> Seq<char> {
    "```\n"@ + dir_lines(dirs) + "```\n"@
}

/// The whole context: the question, the samples, the resources, and the
/// directory tree where the request asks for it.
pub open spec fn context_text(
    req: CodeGenRequest,
    samples: Seq<CodeSample>,
    texts: Seq<String>,
    dirs: Seq<String>,
) -> Seq<char> {
    "#用户问题：\""@ + req.question@ + "\"\n\n"@ + samples_text(samples) + resources_text(
        req.resources@,
        texts,
        req.resources@.len() as int,
    ) + if req.auto_detect_dir {
        "#当前源码目录结构："@ + tree_text(dirs)
    } else {
        Seq::empty()
    }
}

/// Every resource is a table or a file.
pub open spec fn resources_supported(req: CodeGenRequest) -> bool {
    forall|i: int| 0 <= i < req.resources@.len() ==> kind_of(#[trigger] req.resources@[i].resource_type@) is Some
}

/// Composes the prompt context of a request from what was fetched for it.
pub struct LLMContextBuilder {}

fn append_fenced(out: &mut String, title: &str, name: &str, body: &str)
    ensures
        final(out)@ == old(out)@ + fenced(title@, name@, body@),
{
    out.append(title);
    out.append(name);
    out.append("\n```\n");
    out.append(body);
    out.append("\n```");
    assert(final(out)@ =~= old(out)@ + fenced(title@, name@, body@));
}

impl LLMContextBuilder {
    pub fn new() -> (r: LLMContextBuilder) {
        LLMContextBuilder {  }
    }

    /// Which kind of resource this is; `None` for one of another type.
    pub fn resource_kind(resource: &ResourceMeta) -> (r: Option<ResourceKind>)
        ensures
            r == kind_of(resource.resource_type@),
    {
        if resource.resource_type == String::from_str("table") {
            Some(ResourceKind::Table)
        } else if resource.resource_type == String::from_str("file") {
            Some(ResourceKind::File)
        } else {
            None
        }
    }

    /// The context for `request`. `samples` are the cited samples in the
    /// order of `sample_ids`; `texts[i]` is what was fetched for
    /// `resources[i]` (a schema or a file's content); `dirs` are the
    /// directories under the source root, relative to it. Fails where a
    /// resource is neither a table nor a file.
    pub fn build(
        &self,
        request: &CodeGenRequest,
        samples: &Vec<CodeSample>,
        texts: &Vec<String>,
        dirs: &Vec<String>,
    ) -> (r: Result<String, TaskError>)
        requires
            texts.len() == request.resources.len(),
        ensures
            r is Ok <==> resources_supported(*request),
            r is Ok ==> r->Ok_0@ == context_text(*request, samples@, texts@, dirs@),
            r is Err ==> r->Err_0 == TaskError::Provider(r->Err_0->Provider_0) && r->Err_0->Provider_0@
                == "Unsupported resource type"@,
    {
        let mut context = String::from_str("#用户问题：\"");
        context.append(request.question.as_str());
        context.append("\"\n\n");
        let ghost head = context@;
        let mut i: usize = 0;
        while i < samples.len()
            invariant
                i <= samples.len(),
                context@ == head + samples_text(samples@.subrange(0, i as int)),
            decreases samples.len() - i,
        {
            append_fenced(
                &mut context,
                "##引用代码示例： ",
                samples[i].name.as_str(),
                samples[i].content.as_str(),
            );
            assert(samples@.subrange(0, i + 1).drop_last() =~= samples@.subrange(0, i as int));
            i = i + 1;
        }
        assert(samples@.subrange(0, i as int) =~= samples@);
        let ghost mid = context@;
        let mut k: usize = 0;
        while k < request.resources.len()
            invariant
                k <= request.resources.len() == texts.len(),
                forall|j: int| 0 <= j < k ==> kind_of(#[trigger] request.resources@[j].resource_type@) is Some,
                context@ == mid + resources_text(request.resources@, texts@, k as int),
            decreases request.resources.len() - k,
        {
            let res = &request.resources[k];
            match Self::resource_kind(res) {
                Some(ResourceKind::Table) => {
                    let mut inner = String::from_str("##引用数据表schema: ");
                    inner.append(texts[k].as_str());
                    inner.append("\n");
                    append_fenced(
                        &mut context,
                        "##引用数据表schema：",
                        res.name.as_str(),
                        inner.as_str(),
                    );
                },
                Some(ResourceKind::File) => {
                    let mut inner = String::new();
                    append_fenced(
                        &mut inner,
                        "##引用文件： ",
                        res.name.as_str(),
                        texts[k].as_str(),
                    );
                    append_fenced(
                        &mut context,
                        "##引用代码文件内容：",
                        res.data.as_str(),
                        inner.as_str(),
                    );
                },
                None => {
                    return Err(TaskError::Provider(String::from_str("Unsupported resource type")));
                },
            }
            k = k + 1;
        }
        if request.auto_detect_dir {
            context.append("#当前源码目录结构：");
            let tree = generate_directory_structure(dirs);
            context.append(tree.as_str());
        }
        Ok(context)
    }
}

/// The directories under a source root as a fenced list, one per line, each
/// written with a leading `/` and with `/` as its separator.
pub fn generate_directory_structure(dirs: &Vec<String>) -> (r: String)
    ensures
        r@ == tree_text(dirs@),
{
    let mut out = String::from_str("```\n");
    let mut i: usize = 0;
    while i < dirs.len()
        invariant
            i <= dirs.len(),
            out@ == "```\n"@ + dir_lines(dirs@.subrange(0, i as int)),
        decreases dirs.len() - i,
    {
        let ghost before = out@;
        proof {
            reveal_strlit("/");
            reveal_strlit("\n");
        }
        crate::text::push_char(&mut out, '/');
        assert(out@ =~= before + "/"@ + with_slashes(Seq::<char>::empty()));
        let cs = crate::text::chars_of(dirs[i].as_str());
        let mut j: usize = 0;
        while j < cs.len()
            invariant
                j <= cs.len(),
                cs@ == dirs@[i as int]@,
                out@ == before + "/"@ + with_slashes(cs@.subrange(0, j as int)),
            decreases cs.len() - j,
        {
            let c = if cs[j] == '\\' {
                '/'
            } else {
                cs[j]
            };
            crate::text::push_char(&mut out, c);
            assert(with_slashes(cs@.subrange(0, j + 1)) =~= with_slashes(cs@.subrange(0, j as int)).push(c));
            j = j + 1;
        }
        crate::text::push_char(&mut out, '\n');
        assert(cs@.subrange(0, j as int) =~= cs@);
        assert(dirs@.subrange(0, i + 1).drop_last() =~= dirs@.subrange(0, i as int));
        assert(out@ =~= "```\n"@ + dir_lines(dirs@.subrange(0, i + 1)));
        i = i + 1;
    }
    out.append("```\n");
    assert(dirs@.subrange(0, i as int) =~= dirs@);
    out
}

} // verus!
