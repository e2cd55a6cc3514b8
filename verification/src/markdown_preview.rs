use vstd::prelude::*;
use vstd::string::StringExecFns;

verus! {

/// The command-line surface of the previewer: the markdown input paths.
pub struct Cli {
    pub inputs: Vec<String>,
}

/// Errors of writing or removing the preview HTML file. The payload is the
/// message of the underlying input/output failure.
#[derive(Debug)]
pub enum HtmlFileError {
    IOError(String),
}

/// The preview HTML file: the library only names it; writing and removing
/// it is the application's work.
pub struct HtmlFile {
    pub path: String,
}

impl HtmlFile {
    pub fn new(path: String) -> (r: Self)
        ensures
            r.path == path,
    {
        HtmlFile { path }
    }
}

/// Errors of rendering markdown. The payload is the message of the
/// underlying input/output failure.
#[derive(Debug)]
pub enum MarkdownError {
    IOError(String),
}

/// The rendered HTML of a markdown source: a pure function of the text.
pub uninterp spec fn html_of(input: Seq<char>) -> Seq<char>;

/// One markdown source held as text.
pub struct Markdown {
    input: String,
}

impl View for Markdown {
    type V = Seq<char>;

    closed spec fn view(&self) -> Seq<char> {
        self.input@
    }
}

impl Markdown {
    pub fn new(input: String) -> (r: Self)
        ensures
            r@ == input@,
    {
        Markdown { input }
    }

    /// Relies on pulldown_cmark: `Parser::new_ext` over the source with all
    /// options on, rendered by `html::push_html` into a fresh string. The
    /// result depends on the source text alone.
    #[verifier::external_body]
    pub fn to_html(&self) -> (r: String)
        ensures
            r@ == html_of(self@),
    {
        let parser = pulldown_cmark::Parser::new_ext(&self.input, pulldown_cmark::Options::all());
        let mut html_output = String::new();
        pulldown_cmark::html::push_html(&mut html_output, parser);
        html_output
    }
}

/// Errors of opening the platform viewer.
#[derive(Debug)]
pub enum PreviewError {
    IOError(String),
    ProcessError(String),
    UnsupportedPlatform,
}

/// The viewer invocation: the library decides the launch command; spawning
/// the process is the application's work.
pub struct Preview {
    pub path: String,
}

impl Preview {
    pub fn new(path: String) -> (r: Self)
        ensures
            r.path == path,
    {
        Preview { path }
    }

    /// The command that opens a file in the platform viewer: `cmd` on
    /// Windows, `open` on a Unix-like, and an `UnsupportedPlatform` error
    /// anywhere else.
    pub fn viewer_command(is_windows: bool, is_unix_like: bool) -> (r: Result<
        &'static str,
        PreviewError,
    >)
        ensures
            is_windows ==> r is Ok && r->Ok_0@ == "cmd"@,
            !is_windows && is_unix_like ==> r is Ok && r->Ok_0@ == "open"@,
            !is_windows && !is_unix_like ==> r == Result::<
                &'static str,
                PreviewError,
            >::Err(PreviewError::UnsupportedPlatform),
    {
        if is_windows {
            Ok("cmd")
        } else if is_unix_like {
            Ok("open")
        } else {
            Err(PreviewError::UnsupportedPlatform)
        }
    }
}

/// Errors of the previewer as a whole.
#[derive(Debug)]
pub enum AppError {
    MarkdownError(MarkdownError),
    IOError(String),
}

impl From<MarkdownError> for AppError {
    fn from(error: MarkdownError) -> (r: Self) {
        AppError::MarkdownError(error)
    }
}

impl vstd::std_specs::convert::FromSpecImpl<MarkdownError> for AppError {
    open spec fn obeys_from_spec() -> bool {
        true
    }

    open spec fn from_spec(error: MarkdownError) -> Self {
        AppError::MarkdownError(error)
    }
}

/// The HTML of the first `i` sources: their renders concatenated in order,
/// with no separator between two renders.
pub open spec fn rendered_upto(ms: Seq<Markdown>, i: int) -> Seq<char>
    decreases i,
{
    if i <= 0 {
        Seq::empty()
    } else {
        rendered_upto(ms, i - 1) + html_of(ms[i - 1]@)
    }
}

/// The previewer: the markdown sources, the HTML file they render into,
/// and the viewer over that file.
pub struct MarkdownPreview {
    pub markdowns: Vec<Markdown>,
    pub html_file: HtmlFile,
    pub preview: Preview,
}

impl MarkdownPreview {
    /// A previewer over the given markdown sources, rendering into
    /// `preview.html` in the working directory.
    pub fn new(inputs: Vec<String>) -> (r: Result<Self, AppError>)
        ensures
            r is Ok,
            r->Ok_0.markdowns@.len() == inputs@.len(),
            forall|i: int|
                0 <= i < inputs@.len() ==> r->Ok_0.markdowns@[i]@ == #[trigger] inputs@[i]@,
            r->Ok_0.html_file.path@ == "preview.html"@,
            r->Ok_0.preview.path@ == "preview.html"@,
    {
        let mut markdowns: Vec<Markdown> = Vec::new();
        let mut i: usize = 0;
        while i < inputs.len()
            invariant
                0 <= i <= inputs@.len(),
                markdowns@.len() == i,
                forall|k: int| 0 <= k < i ==> markdowns@[k]@ == #[trigger] inputs@[k]@,
            decreases inputs@.len() - i,
        {
            let text = inputs[i].clone();
            markdowns.push(Markdown::new(text));
            i = i + 1;
        }
        let path = "preview.html";
        let html_file = HtmlFile::new(path.to_owned());
        let preview = Preview::new(path.to_owned());
        Ok(MarkdownPreview { markdowns, html_file, preview })
    }

    /// Render every source and concatenate the HTML in order: the result is
    /// the concatenation of the individual renders with no added separator.
    pub fn render_html(&self) -> (r: String)
        ensures
            r@ == rendered_upto(self.markdowns@, self.markdowns@.len() as int),
    {
        let mut html_output = String::new();
        let mut i: usize = 0;
        while i < self.markdowns.len()
            invariant
                0 <= i <= self.markdowns@.len(),
                html_output@ == rendered_upto(self.markdowns@, i as int),
            decreases self.markdowns@.len() - i,
        {
            let piece = self.markdowns[i].to_html();
            html_output.append(piece.as_str());
            assert(html_output@ == rendered_upto(self.markdowns@, i as int + 1));
            i = i + 1;
        }
        html_output
    }
}

} // verus!
