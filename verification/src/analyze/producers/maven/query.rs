//! The structural queries that read a descriptor, and what they give.

use tree_sitter::{Node, Parser, Query, QueryCapture, QueryCursor};
use tree_sitter_xml::language_xml;
use vstd::prelude::*;

verus! {

/// Finds the children of the parent reference: their names and their values.
pub const TREE_SITTER_PARENT_INFORMATION: &'static str = r###"
(document
  root: (element
	(STag
	  (Name) @project
	)
	(content
	  (element
		(STag
		  (Name) @parent
		)
		(content
		  (element
		  (STag
			(Name) @key
		  )
		  (content) @value
		  (ETag)
		  )
		)+
	  )
	)
	(#eq? @project "project")
	(#eq? @parent "parent")
	(#any-of? @key "relativePath" "groupId" "artifactId" "version")
  )
)
"###;

/// Finds the group, the artifact and the version of the project itself.
pub const TREE_SITTER_PROJECT_METADATA: &'static str = r###"
(document
  root: (element
	(STag
	  (Name) @project
	)

    (content
      (element
      (STag
        (Name) @key
      )
      (content) @value
      (ETag)
      )
    )+

	(#eq? @project "project")
	(#any-of? @key "groupId" "artifactId" "version")
  )
)

(element
   (STag
      (Name) @project
   )
   (content
      (element
         (STag
            (Name) @version
         )
         (content) @value
      )
   )
   (#eq? @project "project")
   (#eq? @version "version")
)
"###;

/// Finds the properties: their names and their values.
pub const TREE_SITTER_PROJECT_PROPERTIES: &'static str = r###"
(element
   (STag
      (Name) @project
   )
   (content
      (element
         (STag
            (Name) @properties
         )
         (content
            (element
               (STag
                  (Name) @key
               )
               (content) @value
            )

         )
      )
   )
   (#eq? @project "project")
   (#eq? @properties "properties")
)
"###;

/// Finds the managed dependencies, each with the names and the values of its
/// children.
pub const TREE_SITTER_QUERY_DEPENDENCY_MANAGEMENT: &'static str = r###"
(element
   (STag
      (Name)@project
   )
   (content
        (element
            (STag
                (Name)@dependencyManagement
            )
            (content
                (element
                    (STag
                        (Name) @dependencies
                    )
                    (content
                        (element
                           (STag
                              (Name)@name
                           )
                           (content
                             (
                                 (element
                                    (STag
                                       (Name)@tag
                                    )
                                    (content)@value
                                 )
                                 (CharData)
                             )+
                           )
                           (#eq? @name "dependency")
                        )@element
                    )
                    (#eq? @dependencies "dependencies")
                )
            )
        )
   )
   (#eq? @dependencyManagement "dependencyManagement")
   (#eq? @project "project")
)
"###;

/// Finds the dependencies, each with the names and the values of its
/// children.
pub const TREE_SITTER_QUERY_DEPENDENCIES: &'static str = r###"
(element
   (STag
      (Name)@project
   )
   (content
        (element
            (STag
                (Name) @dependencies
            )
            (content
                (element
                   (STag
                      (Name)@name
                   )
                   (content
                     (
                         (element
                            (STag
                               (Name)@tag
                            )
                            (content)@value
                         )
                         (CharData)
                     )+
                   )
                   (#eq? @name "dependency")
                )@element
            )
            (#eq? @dependencies "dependencies")
        )
   )
   (#eq? @project "project")
)
"###;

/// One node that a query captured: the slot of the query that it fills, the
/// span of bytes that it covers, and the text of that span.
#[derive(Debug)]
pub struct Capture {
    pub index: u32,
    pub start_byte: usize,
    pub end_byte: usize,
    pub text: String,
}

/// What a [`Capture`] holds.
pub struct CaptureView {
    pub index: u32,
    pub start_byte: usize,
    pub end_byte: usize,
    pub text: Seq<char>,
}

impl View for Capture {
    type V = CaptureView;

    open spec fn view(&self) -> CaptureView {
        CaptureView {
            index: self.index,
            start_byte: self.start_byte,
            end_byte: self.end_byte,
            text: self.text@,
        }
    }
}

impl Capture {
    /// A captured node.
    pub fn new(index: u32, start_byte: usize, end_byte: usize, text: &str) -> (r: Capture)
        ensures
            r@ == (CaptureView { index, start_byte, end_byte, text: text@ }),
    {
        Capture { index, start_byte, end_byte, text: text.to_owned() }
    }
}

/// One match of a query: the nodes that it captured, in order.
#[derive(Debug)]
pub struct QueryMatch {
    pub captures: Vec<Capture>,
}

impl View for QueryMatch {
    type V = Seq<CaptureView>;

    open spec fn view(&self) -> Seq<CaptureView> {
        self.captures@.map_values(|c: Capture| c@)
    }
}

/// The views of a list of matches, in order.
pub open spec fn matches_view(matches: Seq<QueryMatch>) -> Seq<Seq<CaptureView>> {
    matches.map_values(|m: QueryMatch| m@)
}

/// The views of the matches of a query that may have failed.
pub open spec fn matches_option_view(matches: Option<Vec<QueryMatch>>) -> Option<
    Seq<Seq<CaptureView>>,
> {
    match matches {
        Some(m) => Some(matches_view(m@)),
        None => None,
    }
}

/// The matches of `pattern` in the XML document `content`, as `tree-sitter`
/// finds them with the XML grammar; `None` where the document gives no tree
/// or the pattern is no query.
pub uninterp spec fn xml_matches(content: Seq<char>, pattern: Seq<char>) -> Option<
    Seq<Seq<CaptureView>>,
>;

/// `tree_sitter::QueryCursor::matches` over the tree that
/// `tree_sitter::Parser::parse` makes of `content` with the grammar of
/// `tree_sitter_xml::language_xml`, for the query that
/// `tree_sitter::Query::new` makes of `pattern`. Each match is handed out as
/// its captures, each capture as its slot, its span and its text. The
/// contract only names what comes back.
#[verifier::external_body]
pub(crate) fn run_query(content: &str, pattern: &str) -> (r: Option<Vec<QueryMatch>>)
    ensures
        matches_option_view(r) == xml_matches(content@, pattern@),
{
    let language = language_xml();
    let mut parser = Parser::new();
    parser.set_language(&language).ok()?;
    let tree = parser.parse(content, None)?;
    let query = Query::new(&language, pattern).ok()?;
    let mut cursor = QueryCursor::new();
    let text = |n: Node| n.utf8_text(content.as_bytes()).unwrap_or_default();
    let capture = |c: &QueryCapture| {
        Capture::new(c.index, c.node.start_byte(), c.node.end_byte(), text(c.node))
    };
    let found = cursor.matches(&query, tree.root_node(), content.as_bytes());
    Some(found.map(|m| QueryMatch { captures: m.captures.iter().map(capture).collect() }).collect())
}

/// The matches of `pattern` in the XML document `content`; `None` where the
/// document gives no tree or the pattern is no query.
pub fn find_matches(content: &str, pattern: &str) -> (r: Option<Vec<QueryMatch>>)
    ensures
        matches_option_view(r) == xml_matches(content@, pattern@),
{
    run_query(content, pattern)
}

} // verus!
