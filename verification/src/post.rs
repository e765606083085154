//! Posts: the values bound into the template, the rendering, and the run
//! that turns a batch of images into dated posts.

use crate::error::PostError;
use crate::files::{image_parts, ImageFile};
use crate::schedule::{
    lemma_cadence_is_closed, lemma_cadence_step, next_post_day, nth_post_day, post_timestamp,
    publishing_day, rendered_date_time, weekday_of, CalendarDay, PostSchedule, MAX_DAY, POST_HOUR,
};
use crate::tags::{english_stop_words, extract_tags, tags_of};
use tera::{Context, Tera};
use vstd::prelude::*;
use vstd::string::StringExecFns;

verus! {

/// The template engine's set of named values for one rendering.
#[verifier::external_type_specification]
#[verifier::external_body]
pub struct ExContext(Context);

/// The template engine with the templates that were added to it.
#[verifier::external_type_specification]
#[verifier::external_body]
pub struct ExTera(Tera);

/// The template engine's report of a template it could not parse or render.
#[verifier::external_type_specification]
#[verifier::external_body]
pub struct ExTemplateFailure(tera::Error);

/// A value that a template can refer to by name.
pub enum TemplateValue {
    /// A string.
    Text(Seq<char>),
    /// An integer.
    Number(int),
    /// A list of strings.
    List(Seq<Seq<char>>),
}

/// The values that `context` holds, each under its name.
pub uninterp spec fn context_bindings(context: Context) -> Map<Seq<char>, TemplateValue>;

/// No value under any name.
pub open spec fn no_bindings() -> Map<Seq<char>, TemplateValue> {
    Map::empty()
}

/// `tera::Context::new` makes a context that holds nothing.
#[verifier::external_body]
fn new_context() -> (context: Context)
    ensures
        context_bindings(context) == no_bindings(),
{
    Context::new()
}

/// `tera::Context::insert` with a string: `key` then names that string,
/// whatever it named before, and the other names keep their values.
#[verifier::external_body]
fn insert_text(context: &mut Context, key: &str, value: &str)
    ensures
        context_bindings(*final(context)) == context_bindings(*old(context)).insert(
            key@,
            TemplateValue::Text(value@),
        ),
{
    context.insert(key.to_string(), value);
}

/// `tera::Context::insert` with an integer: `key` then names that number,
/// whatever it named before, and the other names keep their values.
#[verifier::external_body]
fn insert_number(context: &mut Context, key: &str, value: i64)
    ensures
        context_bindings(*final(context)) == context_bindings(*old(context)).insert(
            key@,
            TemplateValue::Number(value as int),
        ),
{
    context.insert(key.to_string(), &value);
}

/// `tera::Context::insert` with a list of strings: `key` then names that
/// list, whatever it named before, and the other names keep their values.
#[verifier::external_body]
fn insert_list(context: &mut Context, key: &str, values: &Vec<String>)
    ensures
        context_bindings(*final(context)) == context_bindings(*old(context)).insert(
            key@,
            TemplateValue::List(values.deep_view()),
        ),
{
    context.insert(key.to_string(), values);
}

/// `tera::Tera::default` and `tera::Tera::add_raw_template`: a new engine that
/// holds `content` under `name`, or its report of why it refused the text.
#[verifier::external_body]
fn engine_with_template(name: &str, content: &str) -> (made: Result<Tera, tera::Error>)
    ensures
        (made is Ok) == template_accepted(name@, content@),
{
    let mut engine = Tera::default();
    engine.add_raw_template(name, content)?;
    Ok(engine)
}

/// `tera::Tera::render`: the text that the template kept under `name` makes
/// of `context`, or the engine's report of why it made none.
#[verifier::external_body]
fn render_template(engine: &Tera, name: &str, context: &Context) -> (rendered: Result<
    String,
    tera::Error,
>) {
    engine.render(name, context)
}

/// Name under which the post template is handed to the engine.
pub const TEMPLATE_NAME: &'static str = "post_template";

/// The name of the file that a post is written to.
pub open spec fn file_name_of(date_time: Seq<char>, title: Seq<char>) -> Seq<char> {
    date_time + seq!['-'] + title + seq!['.', 'm', 'd']
}

/// The name of the file for the post titled `title` and scheduled at
/// `date_time`.
pub fn post_file_name(date_time: &str, title: &str) -> (name: String)
    ensures
        name@ == file_name_of(date_time@, title@),
{
    let mut name = date_time.to_owned();
    name.push('-');
    name.append(title);
    name.push('.');
    name.push('m');
    name.push('d');
    name
}

/// What the template of one post can refer to.
#[derive(Debug, PartialEq, Eq)]
pub struct PostContext {
    /// The image's stem.
    pub title: String,
    /// The image's stem without its last two characters.
    pub significant_digit_title: String,
    /// Unix time at which the post is published.
    pub upload_timestamp: i64,
    /// The description as it was entered.
    pub description: String,
    /// The keywords of the description.
    pub tags: Vec<String>,
}

impl PostContext {
    /// The context of the post for `image`, published as `schedule` says and
    /// described by `description`.
    pub fn new(
        image: &ImageFile,
        schedule: &PostSchedule,
        description: &str,
        stop_words: &Vec<String>,
    ) -> (context: PostContext)
        ensures
            context.title@ == image@.stem,
            context.significant_digit_title@ == image@.significant_digits,
            context.upload_timestamp == post_timestamp(schedule@),
            context.description@ == description@,
            context.tags.deep_view() == tags_of(description@, stop_words.deep_view().to_set()),
    {
        PostContext {
            title: image.stem().clone(),
            significant_digit_title: image.significant_digits().clone(),
            upload_timestamp: schedule.upload_timestamp(),
            description: description.to_owned(),
            tags: extract_tags(description, stop_words),
        }
    }

    /// The names that the template can use, each with its value: `title`,
    /// `significant_digit_title`, `upload_date`, `description` and `tags`.
    pub open spec fn bindings(self) -> Map<Seq<char>, TemplateValue> {
        no_bindings().insert(
            "title"@,
            TemplateValue::Text(self.title@),
        ).insert(
            "significant_digit_title"@,
            TemplateValue::Text(self.significant_digit_title@),
        ).insert("upload_date"@, TemplateValue::Number(self.upload_timestamp as int)).insert(
            "description"@,
            TemplateValue::Text(self.description@),
        ).insert("tags"@, TemplateValue::List(self.tags.deep_view()))
    }

    fn template_context(&self) -> (context: Context)
        ensures
            context_bindings(context) == self.bindings(),
    {
        let mut context = new_context();
        insert_text(&mut context, "title", self.title.as_str());
        insert_text(&mut context, "significant_digit_title", self.significant_digit_title.as_str());
        insert_number(&mut context, "upload_date", self.upload_timestamp);
        insert_text(&mut context, "description", self.description.as_str());
        insert_list(&mut context, "tags", &self.tags);
        context
    }

    /// The text that the engine makes of `template`, held under
    /// [`TEMPLATE_NAME`], and of the values of [`PostContext::bindings`].
    /// Fails where the engine does not take the template or cannot render it.
    pub fn render(&self, template: &str) -> (rendered: Result<String, PostError>)
        ensures
            !template_accepted(TEMPLATE_NAME@, template@) ==> rendered is Err,
            rendered is Err ==> rendered->Err_0 == PostError::Template,
    {
        match engine_with_template(TEMPLATE_NAME, template) {
            Err(refusal) => rendering_outcome(Err(refusal)),
            Ok(engine) => {
                let context = self.template_context();
                rendering_outcome(render_template(&engine, TEMPLATE_NAME, &context))
            },
        }
    }
}

/// Whether the engine takes `content` as a template: whether an engine that
/// holds no template yet keeps `content` under `name` when it is asked to,
/// which it refuses for a text that it cannot parse. This depends on `name`
/// and `content` alone.
pub uninterp spec fn template_accepted(name: Seq<char>, content: Seq<char>) -> bool;

/// What a rendering comes to: the text that the engine made, or a template
/// error where the engine reported a failure.
pub fn rendering_outcome(outcome: Result<String, tera::Error>) -> (rendered: Result<
    String,
    PostError,
>)
    ensures
        outcome is Ok ==> rendered is Ok && rendered->Ok_0 == outcome->Ok_0,
        outcome is Err ==> rendered is Err && rendered->Err_0 == PostError::Template,
{
    match outcome {
        Ok(text) => Ok(text),
        Err(_) => Err(PostError::Template),
    }
}

/// A post ready to be written to disk.
#[derive(Debug, PartialEq, Eq)]
pub struct PostFile {
    /// Name of the file, in the working directory.
    pub name: String,
    /// The rendered text.
    pub content: String,
}

impl PostFile {
    /// The post titled `title` and scheduled at `date_time`, with the text
    /// `content`.
    pub fn new(date_time: &str, title: &str, content: String) -> (post: PostFile)
        ensures
            post.name@ == file_name_of(date_time@, title@),
            post.content@ == content@,
    {
        PostFile { name: post_file_name(date_time, title), content }
    }
}

/// How far a run has come: where it started, how many posts are done, and
/// the day of the next post. The schedule has moved on once for each post
/// that is done.
#[derive(Clone, Copy)]
struct Progress {
    first_day: CalendarDay,
    schedule: PostSchedule,
    posted: usize,
}

impl Progress {
    #[verifier::type_invariant]
    spec fn on_schedule(self) -> bool {
        self.schedule@ == nth_post_day(self.first_day@, self.posted as nat)
    }
}

/// A run of post generation: the images of the batch in the order in which
/// they get their posts, the schedule, and the stop words that every post of
/// the batch is made with.
pub struct PostRun {
    progress: Progress,
    stop_words: Vec<String>,
    images: Vec<String>,
}

impl PostRun {
    /// The day on which the run started.
    pub closed spec fn first_day(&self) -> int {
        self.progress.first_day@
    }

    /// The day of the next post.
    pub closed spec fn day(&self) -> int {
        self.progress.schedule@
    }

    /// The file names of the images of the batch.
    pub closed spec fn images(&self) -> Seq<Seq<char>> {
        self.images.deep_view()
    }

    /// How many images of the batch have their post.
    pub closed spec fn posted(&self) -> nat {
        self.progress.posted as nat
    }

    /// The words that no tag may be.
    pub closed spec fn stop_word_set(&self) -> Set<Seq<char>> {
        self.stop_words.deep_view().to_set()
    }

    /// Begins a run on `date` with the English stop words and no images yet.
    /// Fails unless `date` is a Monday, a Wednesday or a Friday.
    pub fn start(date: CalendarDay) -> (started: Result<PostRun, PostError>)
        ensures
            publishing_day(weekday_of(date@)) ==> started is Ok && started->Ok_0.first_day()
                == date@ && started->Ok_0.day() == date@ && started->Ok_0.posted() == 0
                && started->Ok_0.images().len() == 0,
            !publishing_day(weekday_of(date@)) ==> started is Err && started->Err_0
                == PostError::InvalidStartDate,
    {
        match PostSchedule::validate_start(date) {
            Ok(schedule) => Ok(
                PostRun {
                    progress: Progress { first_day: date, schedule, posted: 0 },
                    stop_words: english_stop_words(),
                    images: Vec::new(),
                },
            ),
            Err(error) => Err(error),
        }
    }

    /// Begins a run on `date` with the given stop words and no images yet.
    /// Fails unless `date` is a Monday, a Wednesday or a Friday.
    pub fn start_with(date: CalendarDay, stop_words: Vec<String>) -> (started: Result<
        PostRun,
        PostError,
    >)
        ensures
            publishing_day(weekday_of(date@)) ==> started is Ok && started->Ok_0.first_day()
                == date@ && started->Ok_0.day() == date@ && started->Ok_0.posted() == 0
                && started->Ok_0.images().len() == 0 && started->Ok_0.stop_word_set()
                == stop_words.deep_view().to_set(),
            !publishing_day(weekday_of(date@)) ==> started is Err && started->Err_0
                == PostError::InvalidStartDate,
    {
        match PostSchedule::validate_start(date) {
            Ok(schedule) => Ok(
                PostRun {
                    progress: Progress { first_day: date, schedule, posted: 0 },
                    stop_words,
                    images: Vec::new(),
                },
            ),
            Err(error) => Err(error),
        }
    }

    /// Puts the images named `names` at the end of the batch, in their order.
    pub fn add_images(&mut self, names: Vec<String>)
        ensures
            final(self).images() == old(self).images() + names.deep_view(),
            final(self).posted() == old(self).posted(),
            final(self).day() == old(self).day(),
            final(self).first_day() == old(self).first_day(),
            final(self).stop_word_set() == old(self).stop_word_set(),
    {
        let mut names = names;
        let ghost before = self.images.deep_view();
        let ghost added = names.deep_view();
        self.images.append(&mut names);
        assert(self.images.deep_view() =~= before + added);
    }

    /// The schedule as it stands: the day of the `n`-th post after the
    /// first, where `n` posts are done.
    pub fn schedule(&self) -> (schedule: PostSchedule)
        ensures
            schedule@ == self.day(),
            self.day() == nth_post_day(self.first_day(), self.posted()),
    {
        proof {
            use_type_invariant(&self.progress);
        }
        self.progress.schedule
    }

    /// How many images of the batch have their post.
    pub fn posted_count(&self) -> (count: usize)
        ensures
            count == self.posted(),
    {
        self.progress.posted
    }

    /// The stop words of this run.
    pub fn stop_words(&self) -> (words: &Vec<String>)
        ensures
            words.deep_view().to_set() == self.stop_word_set(),
    {
        &self.stop_words
    }

    /// The image whose post is due, or `None` when every image of the batch
    /// has its post. Fails where the stem of the image's file name is not an
    /// integer.
    pub fn next_image(&self) -> (next: Result<Option<ImageFile>, PostError>)
        ensures
            self.posted() >= self.images().len() ==> next is Ok && next->Ok_0 is None,
            self.posted() < self.images().len() ==> match image_parts(
                self.images()[self.posted() as int],
            ) {
                Some(parts) => next is Ok && next->Ok_0 is Some && next->Ok_0->0@ == parts,
                None => next is Err && next->Err_0 == PostError::InvalidFileName,
            },
    {
        if self.progress.posted >= self.images.len() {
            return Ok(None);
        }
        match ImageFile::parse(self.images[self.progress.posted].as_str()) {
            Ok(image) => Ok(Some(image)),
            Err(error) => Err(error),
        }
    }

    /// The context of the post for `image` on the scheduled day.
    pub fn context_for(&self, image: &ImageFile, description: &str) -> (context: PostContext)
        ensures
            context.title@ == image@.stem,
            context.significant_digit_title@ == image@.significant_digits,
            context.upload_timestamp == post_timestamp(self.day()),
            context.description@ == description@,
            context.tags.deep_view() == tags_of(description@, self.stop_word_set()),
    {
        PostContext::new(image, &self.progress.schedule, description, &self.stop_words)
    }

    /// The post for `image` on the scheduled day: its text as `template`
    /// renders it, under the name that the day and the image's stem give.
    /// Fails where the engine does not take the template or cannot render
    /// it. The run stays where it is.
    pub fn compose(&self, image: &ImageFile, description: &str, template: &str) -> (post: Result<
        PostFile,
        PostError,
    >)
        ensures
            !template_accepted(TEMPLATE_NAME@, template@) ==> post is Err,
            post is Err ==> post->Err_0 == PostError::Template,
            post is Ok ==> post->Ok_0.name@ == file_name_of(
                rendered_date_time(self.day(), POST_HOUR as int, 0, 0),
                image@.stem,
            ),
    {
        let context = self.context_for(image, description);
        match context.render(template) {
            Err(error) => Err(error),
            Ok(content) => {
                let date_time = self.progress.schedule.date_time_text();
                Ok(PostFile::new(date_time.as_str(), context.title.as_str(), content))
            },
        }
    }

    /// Whether the run can move on: an image is due, and the day of the
    /// following post can still be held.
    pub fn can_advance(&self) -> (possible: bool)
        ensures
            possible == (self.posted() < self.images().len() && next_post_day(self.day())
                <= MAX_DAY),
    {
        self.progress.posted < self.images.len() && self.progress.schedule.can_advance()
    }

    /// Counts the image that is due as done and moves the schedule to the day
    /// of the following post.
    pub fn advance(&mut self)
        requires
            old(self).posted() < old(self).images().len(),
            next_post_day(old(self).day()) <= MAX_DAY,
        ensures
            final(self).posted() == old(self).posted() + 1,
            final(self).day() == next_post_day(old(self).day()),
            final(self).first_day() == old(self).first_day(),
            final(self).images() == old(self).images(),
            final(self).stop_word_set() == old(self).stop_word_set(),
    {
        proof {
            use_type_invariant(&self.progress);
            assert(self.images.deep_view().len() == self.images.len());
        }
        let mut schedule = self.progress.schedule;
        schedule.advance();
        self.progress = Progress {
            first_day: self.progress.first_day,
            schedule,
            posted: self.progress.posted + 1,
        };
    }
}

/// The post of the image at position `index` of a batch that starts on
/// `first_day` is scheduled on a Monday, a Wednesday or a Friday, and later
/// than the post of every image before it.
pub proof fn lemma_batch_days(first_day: int, index: nat)
    requires
        publishing_day(weekday_of(first_day)),
    ensures
        publishing_day(weekday_of(nth_post_day(first_day, index))),
        forall|earlier: nat|
            earlier < index ==> #[trigger] nth_post_day(first_day, earlier) < nth_post_day(
                first_day,
                index,
            ),
    decreases index,
{
    lemma_cadence_is_closed(first_day, index);
    if index > 0 {
        let before = (index - 1) as nat;
        lemma_batch_days(first_day, before);
        lemma_cadence_is_closed(first_day, before);
        lemma_cadence_step(nth_post_day(first_day, before));
    }
}

} // verus!
