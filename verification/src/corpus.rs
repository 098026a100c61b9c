//! The word corpus as a document: a record with a list of categories, each
//! with a name, an icon and a list of word pairs.

use crate::codec::{read_text, read_text_field, text_field, text_of};
use crate::document::{field, find_field, lemma_list_model, lemma_record_model, nodes_model, Node, NodeModel};
use crate::types::{categories_model, pairs_model, CategoryModel, WordCategory, WordList, WordListModel};
use vstd::prelude::*;
use vstd::string::StringExecFns;

verus! {

/// The word pair that a document stands for: a list of two texts.
pub open spec fn decoded_word_pair(node: NodeModel) -> Option<(Seq<char>, Seq<char>)> {
    match node {
        NodeModel::List(items) => if items.len() == 2 {
            match (text_of(items[0]), text_of(items[1])) {
                (Some(first), Some(second)) => Some((first, second)),
                _ => None,
            }
        } else {
            None
        },
        _ => None,
    }
}

/// The word pairs that a document stands for: a list in which every item
/// stands for a word pair.
pub open spec fn decoded_word_pairs(node: NodeModel) -> Option<Seq<(Seq<char>, Seq<char>)>> {
    match node {
        NodeModel::List(items) => if forall|i: int|
            0 <= i < items.len() ==> decoded_word_pair(#[trigger] items[i]) is Some {
            Some(Seq::new(items.len(), |i: int| decoded_word_pair(items[i])->0))
        } else {
            None
        },
        _ => None,
    }
}

/// The category that a document stands for: a record with a name, an icon
/// and the word pairs.
pub open spec fn decoded_category(node: NodeModel) -> Option<CategoryModel> {
    match node {
        NodeModel::Record(fields) => match (
            text_field(fields, "name"@),
            text_field(fields, "icon"@),
            field(fields, "pairs"@),
        ) {
            (Some(name), Some(icon), Some(listed)) => match decoded_word_pairs(listed) {
                Some(pairs) => Some(CategoryModel { name, icon, pairs }),
                None => None,
            },
            _ => None,
        },
        _ => None,
    }
}

/// The categories that a document stands for: a list in which every item
/// stands for a category.
pub open spec fn decoded_categories(node: NodeModel) -> Option<Seq<CategoryModel>> {
    match node {
        NodeModel::List(items) => if forall|i: int|
            0 <= i < items.len() ==> decoded_category(#[trigger] items[i]) is Some {
            Some(Seq::new(items.len(), |i: int| decoded_category(items[i])->0))
        } else {
            None
        },
        _ => None,
    }
}

/// The word list that a document stands for: a record with the categories.
pub open spec fn decoded_word_list(node: NodeModel) -> Option<WordListModel> {
    match node {
        NodeModel::Record(fields) => match field(fields, "categories"@) {
            Some(listed) => match decoded_categories(listed) {
                Some(categories) => Some(WordListModel { categories }),
                None => None,
            },
            None => None,
        },
        _ => None,
    }
}

/// Reads a word pair from a document.
pub fn decode_word_pair(node: &Node) -> (r: Option<(String, String)>)
    ensures
        match r {
            Some(pair) => decoded_word_pair(node@) == Some((pair.0@, pair.1@)),
            None => decoded_word_pair(node@) is None,
        },
{
    match node {
        Node::List(items) => {
            proof {
                lemma_list_model(*items);
            }
            if items.len() == 2 {
                assert(nodes_model(items@)[0] == items[0]@);
                assert(nodes_model(items@)[1] == items[1]@);
                match (read_text(&items[0]), read_text(&items[1])) {
                    (Some(first), Some(second)) => Some((first, second)),
                    _ => None,
                }
            } else {
                None
            }
        },
        _ => None,
    }
}

/// Reads the word pairs from a document.
pub fn decode_word_pairs(node: &Node) -> (r: Option<Vec<(String, String)>>)
    ensures
        match r {
            Some(pairs) => decoded_word_pairs(node@) == Some(pairs_model(pairs@)),
            None => decoded_word_pairs(node@) is None,
        },
{
    match node {
        Node::List(items) => {
            proof {
                lemma_list_model(*items);
            }
            let ghost model = nodes_model(items@);
            let mut out: Vec<(String, String)> = Vec::new();
            let mut i: usize = 0;
            while i < items.len()
                invariant
                    i <= items.len(),
                    out.len() == i,
                    model == nodes_model(items@),
                    node@ == NodeModel::List(model),
                    forall|j: int|
                        0 <= j < i ==> decoded_word_pair(#[trigger] model[j]) == Some((out[j].0@, out[j].1@)),
                decreases items.len() - i,
            {
                assert(model[i as int] == items[i as int]@);
                match decode_word_pair(&items[i]) {
                    Some(pair) => out.push(pair),
                    None => {
                        return None;
                    },
                }
                i += 1;
            }
            assert(decoded_word_pairs(node@)->0 =~= pairs_model(out@));
            Some(out)
        },
        _ => None,
    }
}

/// Reads a category from a document.
pub fn decode_category(node: &Node) -> (r: Option<WordCategory>)
    ensures
        match r {
            Some(category) => decoded_category(node@) == Some(category@),
            None => decoded_category(node@) is None,
        },
{
    match node {
        Node::Record(fields) => {
            proof {
                lemma_record_model(*fields);
            }
            let name = read_text_field(fields, "name");
            let icon = read_text_field(fields, "icon");
            let pairs = match find_field(fields, &String::from_str("pairs")) {
                Some(listed) => decode_word_pairs(listed),
                None => None,
            };
            match (name, icon, pairs) {
                (Some(name), Some(icon), Some(pairs)) => Some(WordCategory { name, icon, pairs }),
                _ => None,
            }
        },
        _ => None,
    }
}

/// Reads the categories from a document.
pub fn decode_categories(node: &Node) -> (r: Option<Vec<WordCategory>>)
    ensures
        match r {
            Some(categories) => decoded_categories(node@) == Some(categories_model(categories@)),
            None => decoded_categories(node@) is None,
        },
{
    match node {
        Node::List(items) => {
            proof {
                lemma_list_model(*items);
            }
            let ghost model = nodes_model(items@);
            let mut out: Vec<WordCategory> = Vec::new();
            let mut i: usize = 0;
            while i < items.len()
                invariant
                    i <= items.len(),
                    out.len() == i,
                    model == nodes_model(items@),
                    node@ == NodeModel::List(model),
                    forall|j: int| 0 <= j < i ==> decoded_category(#[trigger] model[j]) == Some(out[j]@),
                decreases items.len() - i,
            {
                assert(model[i as int] == items[i as int]@);
                match decode_category(&items[i]) {
                    Some(category) => out.push(category),
                    None => {
                        return None;
                    },
                }
                i += 1;
            }
            assert(decoded_categories(node@)->0 =~= categories_model(out@));
            Some(out)
        },
        _ => None,
    }
}

/// Reads a word list from a document.
pub fn decode_word_list(node: &Node) -> (r: Option<WordList>)
    ensures
        match r {
            Some(word_list) => decoded_word_list(node@) == Some(word_list@),
            None => decoded_word_list(node@) is None,
        },
{
    match node {
        Node::Record(fields) => {
            proof {
                lemma_record_model(*fields);
            }
            match find_field(fields, &String::from_str("categories")) {
                Some(listed) => match decode_categories(listed) {
                    Some(categories) => Some(WordList { categories }),
                    None => None,
                },
                None => None,
            }
        },
        _ => None,
    }
}

} // verus!
