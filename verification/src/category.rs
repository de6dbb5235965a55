//! Categories and removal: a category is a directory that holds a placeholder
//! file, and it goes only when it holds nothing else.

use crate::effect::{
    build_category_dir, build_entry_file, build_message, category_dir, committed, entry_file,
    finish_with_commit, Effect, EffectView, Event, EventView, TreeError, Turn, TurnView,
};
use crate::models::ActionRequest;
use crate::text::same_text;
use vstd::prelude::*;

verus! {

/// The name of the file that keeps an empty category in place.
pub const PLACEHOLDER: &'static str = ".gitkeep";

/// The stages of removing an entry or a category.
#[derive(Clone, Copy, Debug, PartialEq, Eq, Structural)]
pub enum DeleteStage {
    /// The disk is asked what the path names.
    Probe,
    /// The file of the entry is being removed.
    File,
    /// The directory of the category is being listed.
    List,
    /// The directory of the category is being removed.
    Dir,
}

/// The stages of creating a category.
#[derive(Clone, Copy, Debug, PartialEq, Eq, Structural)]
pub enum CategoryStage {
    /// The directory is being created.
    Dir,
    /// The placeholder is being written.
    Marker,
}

/// Whether a directory with these names holds nothing but placeholders.
pub open spec fn only_placeholders(names: Seq<Seq<char>>) -> bool {
    forall|i: int| 0 <= i < names.len() ==> names[i] == PLACEHOLDER@
}

/// The placeholder file of the category at `path`.
pub open spec fn placeholder_file(store: Seq<char>, path: Seq<char>) -> Seq<char> {
    category_dir(store, path) + "/.gitkeep"@
}

/// The first turn of removing what `path` names.
pub open spec fn delete_first(store: Seq<char>, path: Seq<char>) -> TurnView<DeleteStage> {
    TurnView::Do(
        EffectView::Probe { file: entry_file(store, path), dir: category_dir(store, path) },
        DeleteStage::Probe,
    )
}

/// The turn that follows `event` at `stage` of removing what `path` names.
pub open spec fn delete_then(
    store: Seq<char>,
    path: Seq<char>,
    stage: DeleteStage,
    event: EventView,
) -> TurnView<DeleteStage> {
    match stage {
        DeleteStage::Probe => match event {
            EventView::Kind { is_file, is_dir } => if is_file {
                TurnView::Do(
                    EffectView::RemoveFile { path: entry_file(store, path) },
                    DeleteStage::File,
                )
            } else if is_dir {
                TurnView::Do(
                    EffectView::ListDir { path: category_dir(store, path) },
                    DeleteStage::List,
                )
            } else {
                TurnView::Finish(Err(TreeError::NotFound))
            },
            _ => TurnView::Finish(Err(TreeError::NotFound)),
        },
        DeleteStage::File => match event {
            EventView::Done => TurnView::Finish(committed("OK"@, "Delete secret: "@ + path)),
            _ => TurnView::Finish(Err(TreeError::RemoveFile)),
        },
        DeleteStage::List => match event {
            EventView::Names { names } => if only_placeholders(names) {
                TurnView::Do(
                    EffectView::RemoveDirAll { path: category_dir(store, path) },
                    DeleteStage::Dir,
                )
            } else {
                TurnView::Finish(Err(TreeError::CategoryNotEmpty))
            },
            _ => TurnView::Finish(Err(TreeError::ReadDirectory)),
        },
        DeleteStage::Dir => match event {
            EventView::Done => TurnView::Finish(committed("OK"@, "Delete category: "@ + path)),
            _ => TurnView::Finish(Err(TreeError::RemoveDirectory)),
        },
    }
}

/// The first turn of creating the category at `path`.
pub open spec fn create_first(store: Seq<char>, path: Seq<char>) -> TurnView<CategoryStage> {
    TurnView::Do(
        EffectView::CreateDirAll { path: category_dir(store, path) },
        CategoryStage::Dir,
    )
}

/// The turn that follows `event` at `stage` of creating the category at `path`.
/// Whether the placeholder could be written does not matter.
pub open spec fn create_then(
    store: Seq<char>,
    path: Seq<char>,
    stage: CategoryStage,
    event: EventView,
) -> TurnView<CategoryStage> {
    match stage {
        CategoryStage::Dir => match event {
            EventView::Done => TurnView::Do(
                EffectView::WriteText {
                    path: placeholder_file(store, path),
                    content: Seq::empty(),
                },
                CategoryStage::Marker,
            ),
            _ => TurnView::Finish(Err(TreeError::CreateDirectory)),
        },
        CategoryStage::Marker => TurnView::Finish(committed("OK"@, "Add category: "@ + path)),
    }
}

/// Whether every name is that of the placeholder.
pub fn holds_only_placeholders(names: &Vec<String>) -> (r: bool)
    ensures
        r == only_placeholders(crate::effect::names_of(names@)),
{
    let mut i: usize = 0;
    while i < names.len()
        invariant
            i <= names.len(),
            forall|j: int| 0 <= j < i ==> names@[j]@ == PLACEHOLDER@,
        decreases names.len() - i,
    {
        if !same_text(names[i].as_str(), PLACEHOLDER) {
            assert(crate::effect::names_of(names@)[i as int] != PLACEHOLDER@);
            return false;
        }
        i += 1;
    }
    true
}

/// Begins to remove the entry or the category that the request names.
pub fn delete_entry(store: &str, req: &ActionRequest) -> (turn: Turn<DeleteStage>)
    ensures
        turn@ == delete_first(store@, req.path@),
{
    Turn::Do(
        Effect::Probe {
            file: build_entry_file(store, req.path.as_str()),
            dir: build_category_dir(store, req.path.as_str()),
        },
        DeleteStage::Probe,
    )
}

/// Goes on with a removal after an effect.
pub fn delete_entry_next(store: &str, req: &ActionRequest, stage: DeleteStage, event: Event) -> (turn:
    Turn<DeleteStage>)
    ensures
        turn@ == delete_then(store@, req.path@, stage, event@),
{
    let path = req.path.as_str();
    match stage {
        DeleteStage::Probe => match event {
            Event::Kind { is_file, is_dir } => {
                if is_file {
                    Turn::Do(
                        Effect::RemoveFile { path: build_entry_file(store, path) },
                        DeleteStage::File,
                    )
                } else if is_dir {
                    Turn::Do(
                        Effect::ListDir { path: build_category_dir(store, path) },
                        DeleteStage::List,
                    )
                } else {
                    Turn::Finish(Err(TreeError::NotFound))
                }
            },
            _ => Turn::Finish(Err(TreeError::NotFound)),
        },
        DeleteStage::File => match event {
            Event::Done => finish_with_commit("OK", build_message("Delete secret: ", path)),
            _ => Turn::Finish(Err(TreeError::RemoveFile)),
        },
        DeleteStage::List => match event {
            Event::Names { names } => {
                if holds_only_placeholders(&names) {
                    Turn::Do(
                        Effect::RemoveDirAll { path: build_category_dir(store, path) },
                        DeleteStage::Dir,
                    )
                } else {
                    Turn::Finish(Err(TreeError::CategoryNotEmpty))
                }
            },
            _ => Turn::Finish(Err(TreeError::ReadDirectory)),
        },
        DeleteStage::Dir => match event {
            Event::Done => finish_with_commit("OK", build_message("Delete category: ", path)),
            _ => Turn::Finish(Err(TreeError::RemoveDirectory)),
        },
    }
}

/// Begins to create the category that the request names.
pub fn create_category(store: &str, req: &ActionRequest) -> (turn: Turn<CategoryStage>)
    ensures
        turn@ == create_first(store@, req.path@),
{
    Turn::Do(
        Effect::CreateDirAll { path: build_category_dir(store, req.path.as_str()) },
        CategoryStage::Dir,
    )
}

/// Goes on with creating a category after an effect.
pub fn create_category_next(store: &str, req: &ActionRequest, stage: CategoryStage, event: Event) -> (turn:
    Turn<CategoryStage>)
    ensures
        turn@ == create_then(store@, req.path@, stage, event@),
{
    let path = req.path.as_str();
    match stage {
        CategoryStage::Dir => match event {
            Event::Done => {
                let mut file = build_category_dir(store, path);
                file.append("/.gitkeep");
                Turn::Do(
                    Effect::WriteText { path: file, content: String::new() },
                    CategoryStage::Marker,
                )
            },
            _ => Turn::Finish(Err(TreeError::CreateDirectory)),
        },
        CategoryStage::Marker => finish_with_commit("OK", build_message("Add category: ", path)),
    }
}

} // verus!
