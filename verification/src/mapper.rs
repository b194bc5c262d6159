//! The handling of one request, from its arrival to the response.
//!
//! The service decides and the caller acts: a `Handling` says what has to
//! be found out next, the caller finds it out and reports it as an `Event`.

use vstd::prelude::*;
use vstd::string::*;
use crate::config::{CounterfeitRunConfig, CounterfeitRunConfigView};
use crate::dir_picker::{DirPicker, StandardDirPicker};
use crate::error::{result_view, MapperError, MapperErrorView, MapperResult, ServiceError, ServiceErrorView};
use crate::file_picker::{names_of, DefaultFilePicker, DefaultFilePickerView, FilePick, FilePickView, FilePicker};
use crate::index::MultiFileIndexMap;
use crate::mutation::{
    apply_mutations, chain_spec, law_first_failure_ends_the_chain, BoxedMutation, ResponseMutation,
};
use crate::output::{MapperOutput, MapperOutputView};
use crate::request::{Request, RequestView};
use crate::response::lookup_response;

verus! {

/// How far the handling of a request has come, and what it waits for.
#[derive(Debug)]
pub enum Handling {
    /// Waits to learn whether `directory` exists and is a directory.
    Probe { request: Request, directory: String },
    /// Waits for the names of the regular files in `directory`.
    List { request: Request, directory: String },
    /// Waits for the empty file at `path` to be created.
    Create { request: Request, path: String },
    /// Waits for the content of the file at `path`.
    Read { request: Request, path: String },
    /// Done: the response of this output is to be sent.
    Respond(MapperOutput),
    /// Done: the request fails, and no response is sent.
    Fail(ServiceError),
}

/// The mathematical value of a `Handling`.
pub enum HandlingView {
    Probe { request: RequestView, directory: Seq<char> },
    List { request: RequestView, directory: Seq<char> },
    Create { request: RequestView, path: Seq<char> },
    Read { request: RequestView, path: Seq<char> },
    Respond(MapperOutputView),
    Fail(ServiceErrorView),
}

impl View for Handling {
    type V = HandlingView;

    open spec fn view(&self) -> HandlingView {
        match *self {
            Handling::Probe { request, directory } => HandlingView::Probe {
                request: request@,
                directory: directory@,
            },
            Handling::List { request, directory } => HandlingView::List { request: request@, directory: directory@ },
            Handling::Create { request, path } => HandlingView::Create { request: request@, path: path@ },
            Handling::Read { request, path } => HandlingView::Read { request: request@, path: path@ },
            Handling::Respond(output) => HandlingView::Respond(output@),
            Handling::Fail(error) => HandlingView::Fail(error@),
        }
    }
}

/// What the caller found out.
#[derive(Debug, PartialEq, Eq)]
pub enum Event {
    /// Whether the directory exists and is a directory.
    Probed(bool),
    /// The names of the regular files in the directory, in the order of the
    /// listing; or why it could not be listed.
    Listed(Result<Vec<String>, MapperError>),
    /// Whether the file was created.
    Created(Result<(), MapperError>),
    /// The content of the file, or why it could not be read.
    Read(Result<String, MapperError>),
}

/// The mathematical value of an `Event`.
pub enum EventView {
    Probed(bool),
    Listed(Result<Seq<Seq<char>>, MapperErrorView>),
    Created(Option<MapperErrorView>),
    Read(Result<Seq<char>, MapperErrorView>),
}

impl View for Event {
    type V = EventView;

    open spec fn view(&self) -> EventView {
        match *self {
            Event::Probed(is_directory) => EventView::Probed(is_directory),
            Event::Listed(Ok(files)) => EventView::Listed(Ok(names_of(files@))),
            Event::Listed(Err(error)) => EventView::Listed(Err(error@)),
            Event::Created(Ok(_)) => EventView::Created(None),
            Event::Created(Err(error)) => EventView::Created(Some(error@)),
            Event::Read(content) => EventView::Read(result_view(content)),
        }
    }
}

/// The output that a lookup is assembled into, before any mutation.
pub open spec fn assembled(
    request: RequestView,
    result: Result<Seq<char>, MapperErrorView>,
    content: Result<Seq<char>, MapperErrorView>,
) -> MapperOutputView {
    MapperOutputView { request, response: lookup_response(result, content), result }
}

/// Whether `next` ends the handling of the output `initial`: the chain of
/// mutations was run on it, and either went through, and what it left is
/// sent, or failed, and its failure fails the request.
pub open spec fn concludes<M: ResponseMutation>(
    mutations: Seq<M>,
    initial: MapperOutputView,
    next: HandlingView,
) -> bool {
    match next {
        HandlingView::Respond(output) => chain_spec(mutations, initial, output, None),
        HandlingView::Fail(error) => error is Mutation && exists|after: MapperOutputView| #[trigger]
            chain_spec(mutations, initial, after, Some(error->Mutation_0)),
        _ => false,
    }
}

/// Where the first registered mutation can only fail, no handling ends in
/// a response: it ends in the failure of that mutation.
pub proof fn law_failing_mutation_fails_the_request<M: ResponseMutation>(
    mutations: Seq<M>,
    initial: MapperOutputView,
    next: HandlingView,
)
    requires
        mutations.len() > 0,
        forall|before: MapperOutputView, after: MapperOutputView| !mutations[0].mutation_spec(before, after, None),
        concludes(mutations, initial, next),
    ensures
        next is Fail,
        next->Fail_0 is Mutation,
        exists|after: MapperOutputView| #[trigger]
            mutations[0].mutation_spec(initial, after, Some(next->Fail_0->Mutation_0)),
{
    match next {
        HandlingView::Respond(output) => {
            law_first_failure_ends_the_chain(mutations, initial, output, None);
        },
        HandlingView::Fail(error) => {
            let after = choose|after: MapperOutputView| #[trigger]
                chain_spec(mutations, initial, after, Some(error->Mutation_0));
            law_first_failure_ends_the_chain(mutations, initial, after, Some(error->Mutation_0));
        },
        _ => {},
    }
}

/// Whether the step from `handling`, on `event`, may come to `next` and
/// change the file picker from `picker` to `picker_after`.
///
/// A directory that cannot be resolved fails the request before any file is
/// selected. A listing has the file picker select; what it selects is read,
/// or created and then read. Every other failure, and what was read,
/// concludes the handling with an output. An event that the step does not
/// wait for fails the request.
pub open spec fn step_spec<D: DirPicker, F: FilePicker, M: ResponseMutation>(
    dir_picker: D,
    picker: F,
    mutations: Seq<M>,
    handling: HandlingView,
    event: EventView,
    next: HandlingView,
    picker_after: F,
) -> bool {
    match (handling, event) {
        (HandlingView::Probe { request, directory }, EventView::Probed(is_directory)) => {
            &&& picker_after == picker
            &&& exists|picked: Result<Seq<char>, MapperErrorView>| #[trigger]
                dir_picker.pick_spec(request, is_directory, picked) && match picked {
                    Ok(resolved) => next == (HandlingView::List { request, directory: resolved }),
                    Err(error) => next == HandlingView::Fail(ServiceErrorView::Directory(error)),
                }
        },
        (HandlingView::List { request, directory }, EventView::Listed(Ok(names))) => {
            exists|pick: FilePickView| #[trigger]
                picker.pick_spec(directory, request, names, pick, &picker_after) && match pick {
                    FilePickView::Existing(path) => next == (HandlingView::Read { request, path }),
                    FilePickView::Create(path) => next == (HandlingView::Create { request, path }),
                    FilePickView::Missing(error) => concludes(
                        mutations,
                        assembled(request, Err(error), Err(error)),
                        next,
                    ),
                }
        },
        (HandlingView::List { request, directory }, EventView::Listed(Err(error))) => {
            &&& picker_after == picker
            &&& concludes(mutations, assembled(request, Err(error), Err(error)), next)
        },
        (HandlingView::Create { request, path }, EventView::Created(None)) => {
            &&& picker_after == picker
            &&& next == (HandlingView::Read { request, path })
        },
        (HandlingView::Create { request, path }, EventView::Created(Some(error))) => {
            &&& picker_after == picker
            &&& concludes(mutations, assembled(request, Err(error), Err(error)), next)
        },
        (HandlingView::Read { request, path }, EventView::Read(content)) => {
            &&& picker_after == picker
            &&& concludes(mutations, assembled(request, Ok(path), content), next)
        },
        _ => {
            &&& picker_after == picker
            &&& next == HandlingView::Fail(ServiceErrorView::Unexpected)
        },
    }
}

/// The service that maps requests onto files: a way of resolving
/// directories, a way of selecting files, and the mutations that every
/// response goes through, in their order.
pub struct FileMapperService<D, F> where D: DirPicker, F: FilePicker {
    dir_picker: D,
    file_picker: F,
    mutations: Vec<BoxedMutation>,
    config: CounterfeitRunConfig,
}

/// The mathematical value of a `FileMapperService`.
pub struct FileMapperServiceView<D, F> {
    pub dir_picker: D,
    pub file_picker: F,
    pub mutations: Seq<BoxedMutation>,
    pub config: CounterfeitRunConfigView,
}

impl<D, F> View for FileMapperService<D, F> where D: DirPicker, F: FilePicker {
    type V = FileMapperServiceView<D, F>;

    closed spec fn view(&self) -> FileMapperServiceView<D, F> {
        FileMapperServiceView {
            dir_picker: self.dir_picker,
            file_picker: self.file_picker,
            mutations: self.mutations@,
            config: self.config@,
        }
    }
}

impl<D, F> FileMapperService<D, F> where D: DirPicker, F: FilePicker {
    /// A service made of the given parts.
    pub fn new(
        dir_picker: D,
        file_picker: F,
        mutations: Vec<BoxedMutation>,
        config: CounterfeitRunConfig,
    ) -> (service: Self)
        ensures
            service@ == (FileMapperServiceView { dir_picker, file_picker, mutations: mutations@, config: config@ }),
    {
        Self { dir_picker, file_picker, mutations, config }
    }

    /// Registers `mutation` behind those already registered.
    pub fn add_mutation(&mut self, mutation: BoxedMutation)
        ensures
            final(self)@ == (FileMapperServiceView {
                mutations: old(self)@.mutations.push(mutation),
                ..old(self)@
            }),
    {
        self.mutations.push(mutation);
    }

    /// The settings of the service.
    pub fn config(&self) -> (config: &CounterfeitRunConfig)
        ensures
            config@ == self@.config,
    {
        &self.config
    }

    /// The file picker, as it stands.
    pub fn file_picker(&self) -> (picker: &F)
        ensures
            *picker == self@.file_picker,
    {
        &self.file_picker
    }

    /// Takes up a request: its directory is to be probed.
    pub fn begin(&self, request: Request) -> (handling: Handling)
        ensures
            handling@ is Probe,
            handling@->Probe_request == request@,
            self@.dir_picker.maps_to(request@, handling@->Probe_directory),
    {
        let directory = self.dir_picker.candidate_directory(&request);
        Handling::Probe { request, directory }
    }

    /// Takes the handling one step further, on what the caller found out.
    pub fn advance(&mut self, handling: Handling, event: Event) -> (next: Handling)
        ensures
            step_spec(
                old(self)@.dir_picker,
                old(self)@.file_picker,
                old(self)@.mutations,
                handling@,
                event@,
                next@,
                final(self)@.file_picker,
            ),
            final(self)@ == (FileMapperServiceView { file_picker: final(self)@.file_picker, ..old(self)@ }),
    {
        let ghost before = self@;
        let ghost h = handling@;
        let ghost e = event@;
        let next = match (handling, event) {
            (Handling::Probe { request, directory: _ }, Event::Probed(is_directory)) => {
                let picked = self.dir_picker.pick_directory(&request, is_directory);
                let ghost resolved = result_view(picked);
                let next = match picked {
                    Ok(directory) => Handling::List { request, directory },
                    Err(error) => Handling::Fail(ServiceError::Directory(error)),
                };
                assert(before.dir_picker.pick_spec(h->Probe_request, e->Probed_0, resolved) && match resolved {
                    Ok(directory) => next@ == (HandlingView::List { request: h->Probe_request, directory }),
                    Err(error) => next@ == HandlingView::Fail(ServiceErrorView::Directory(error)),
                });
                next
            },
            (Handling::List { request, directory }, Event::Listed(Ok(files))) => {
                let pick = self.file_picker.pick_file(directory.as_str(), &request, &files);
                let ghost picked = pick@;
                let next = match pick {
                    FilePick::Existing(path) => Handling::Read { request, path },
                    FilePick::Create(path) => Handling::Create { request, path },
                    FilePick::Missing(error) => {
                        let content = Err(error.clone());
                        self.conclude(request, Err(error), content)
                    },
                };
                let ghost asked = h->List_request;
                assert(before.file_picker.pick_spec(
                    h->List_directory,
                    asked,
                    e->Listed_0->Ok_0,
                    picked,
                    &self@.file_picker,
                ) && match picked {
                    FilePickView::Existing(path) => next@ == (HandlingView::Read { request: asked, path }),
                    FilePickView::Create(path) => next@ == (HandlingView::Create { request: asked, path }),
                    FilePickView::Missing(error) => concludes(
                        before.mutations,
                        assembled(asked, Err(error), Err(error)),
                        next@,
                    ),
                });
                next
            },
            (Handling::List { request, directory: _ }, Event::Listed(Err(error))) => {
                let content = Err(error.clone());
                self.conclude(request, Err(error), content)
            },
            (Handling::Create { request, path }, Event::Created(Ok(_))) => Handling::Read { request, path },
            (Handling::Create { request, path: _ }, Event::Created(Err(error))) => {
                let content = Err(error.clone());
                self.conclude(request, Err(error), content)
            },
            (Handling::Read { request, path }, Event::Read(content)) => self.conclude(request, Ok(path), content),
            _ => Handling::Fail(ServiceError::Unexpected),
        };
        assert(step_spec(before.dir_picker, before.file_picker, before.mutations, h, e, next@, self@.file_picker));
        next
    }

    /// Assembles the output of a lookup and runs the mutations on it.
    fn conclude(&self, request: Request, result: MapperResult, content: Result<String, MapperError>) -> (next:
        Handling)
        ensures
            concludes(self@.mutations, assembled(request@, result_view(result), result_view(content)), next@),
    {
        let mut output = MapperOutput::new(request, result, content);
        let ghost initial = output@;
        match apply_mutations(&self.mutations, &mut output) {
            Ok(_) => Handling::Respond(output),
            Err(error) => {
                let next = Handling::Fail(ServiceError::Mutation(error));
                assert(chain_spec(self@.mutations, initial, output@, Some(next@->Fail_0->Mutation_0)));
                next
            },
        }
    }
}

impl FileMapperService<StandardDirPicker, DefaultFilePicker> {
    /// The service with the standard pickers and no mutation.
    pub fn standard(config: CounterfeitRunConfig, index_map: MultiFileIndexMap) -> (service: Self)
        ensures
            service@.dir_picker@ == config@,
            service@.file_picker@ == (DefaultFilePickerView {
                create_missing: config.create_missing,
                cursors: index_map@,
            }),
            service@.mutations == Seq::<BoxedMutation>::empty(),
            service@.config == config@,
    {
        Self {
            dir_picker: StandardDirPicker::new(config.clone()),
            file_picker: DefaultFilePicker::new(config.create_missing, index_map),
            mutations: Vec::new(),
            config,
        }
    }
}

/// What a service is made from: the settings and the cursors.
pub struct MakeFileMapperService {
    config: CounterfeitRunConfig,
    index_map: MultiFileIndexMap,
}

/// The mathematical value of a `MakeFileMapperService`.
pub struct MakeFileMapperServiceView {
    pub config: CounterfeitRunConfigView,
    pub cursors: Map<Seq<char>, nat>,
}

impl View for MakeFileMapperService {
    type V = MakeFileMapperServiceView;

    closed spec fn view(&self) -> MakeFileMapperServiceView {
        MakeFileMapperServiceView { config: self.config@, cursors: self.index_map@ }
    }
}

impl MakeFileMapperService {
    /// A maker of standard services.
    pub fn new(config: CounterfeitRunConfig, index_map: MultiFileIndexMap) -> (maker: Self)
        ensures
            maker@ == (MakeFileMapperServiceView { config: config@, cursors: index_map@ }),
    {
        Self { config, index_map }
    }

    /// Makes the standard service, which takes over the cursors.
    pub fn into_service(self) -> (service: FileMapperService<StandardDirPicker, DefaultFilePicker>)
        ensures
            service@.dir_picker@ == self@.config,
            service@.file_picker@ == (DefaultFilePickerView {
                create_missing: self@.config.create_missing,
                cursors: self@.cursors,
            }),
            service@.mutations == Seq::<BoxedMutation>::empty(),
            service@.config == self@.config,
    {
        FileMapperService::standard(self.config, self.index_map)
    }
}

} // verus!
