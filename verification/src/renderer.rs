pub mod askama_renderer;

use crate::config::Config;
use crate::error::Error;
use crate::vault::content::{Chapter, Content};
pub use askama_renderer::{
    AskamaRenderer, Header, Page, Sidebar, SidebarChapter, SidebarItem, SidebarSection,
};
use vstd::prelude::*;

verus! {

/// Something that turns a chapter into the text of its page.
pub trait Renderer {
    fn render(&self, chapter: &Chapter) -> Result<String, Error>;
}

/// All that rendering a page needs: the table of contents, the options, and the source
/// directory, against which the address of each chapter's page is worked out.
#[derive(Debug)]
pub struct RendererContext {
    pub content: Content,
    pub config: Config,
    pub src_dir: String,
}

impl RendererContext {
    pub fn new(content: Content, config: Config, src_dir: String) -> (context: Self)
        ensures
            context.content == content,
            context.config == config,
            context.src_dir == src_dir,
    {
        Self { content, config, src_dir }
    }
}

impl Clone for RendererContext {
    fn clone(&self) -> (copy: Self)
        ensures
            copy.content@ == self.content@,
            copy.config@ == self.config@,
            copy.src_dir@ == self.src_dir@,
    {
        Self {
            content: self.content.clone(),
            config: self.config.clone(),
            src_dir: self.src_dir.clone(),
        }
    }
}

} // verus!
