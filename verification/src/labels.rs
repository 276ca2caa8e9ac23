//! Object classes and the two detector models that report them.

use vstd::prelude::*;
use crate::text::same_text;

verus! {

/// Number of class scores in each output row of either model.
pub const CLASS_COUNT: usize = 3;

/// What a detection is a detection of. `Nothing` stands for the absence of
/// any object; no model reports it.
#[derive(Clone, Copy, Debug, PartialEq, Eq, Structural)]
pub enum ClassLabel {
    Hen,
    Bucket,
    Cone,
    Pylon,
    Person,
    Roktrack,
    Nothing,
}

impl ClassLabel {
    /// The label as downstream consumers read it.
    pub open spec fn name_of(self) -> Seq<char> {
        match self {
            ClassLabel::Hen => "hen"@,
            ClassLabel::Bucket => "bucket"@,
            ClassLabel::Cone => "cone"@,
            ClassLabel::Pylon => "pylon"@,
            ClassLabel::Person => "person"@,
            ClassLabel::Roktrack => "roktrack"@,
            ClassLabel::Nothing => "nothing"@,
        }
    }

    /// The class that goes by `name`, if one does.
    pub open spec fn named(name: Seq<char>) -> Option<ClassLabel> {
        if name == "hen"@ {
            Some(ClassLabel::Hen)
        } else if name == "bucket"@ {
            Some(ClassLabel::Bucket)
        } else if name == "cone"@ {
            Some(ClassLabel::Cone)
        } else if name == "pylon"@ {
            Some(ClassLabel::Pylon)
        } else if name == "person"@ {
            Some(ClassLabel::Person)
        } else if name == "roktrack"@ {
            Some(ClassLabel::Roktrack)
        } else if name == "nothing"@ {
            Some(ClassLabel::Nothing)
        } else {
            None
        }
    }

    /// The class that goes by `name`, if one does.
    pub fn from_name(name: &str) -> (r: Option<ClassLabel>)
        ensures
            r == ClassLabel::named(name@),
    {
        if same_text(name, "hen") {
            Some(ClassLabel::Hen)
        } else if same_text(name, "bucket") {
            Some(ClassLabel::Bucket)
        } else if same_text(name, "cone") {
            Some(ClassLabel::Cone)
        } else if same_text(name, "pylon") {
            Some(ClassLabel::Pylon)
        } else if same_text(name, "person") {
            Some(ClassLabel::Person)
        } else if same_text(name, "roktrack") {
            Some(ClassLabel::Roktrack)
        } else if same_text(name, "nothing") {
            Some(ClassLabel::Nothing)
        } else {
            None
        }
    }

    /// A class is found again by its name.
    pub proof fn lemma_named_name(self)
        ensures
            ClassLabel::named(self.name_of()) == Some(self),
    {
        reveal_strlit("hen");
        reveal_strlit("bucket");
        reveal_strlit("cone");
        reveal_strlit("pylon");
        reveal_strlit("person");
        reveal_strlit("roktrack");
        reveal_strlit("nothing");
        assert("hen"@.len() == 3 && "bucket"@.len() == 6 && "cone"@.len() == 4 && "pylon"@.len()
            == 5 && "person"@.len() == 6 && "roktrack"@.len() == 8 && "nothing"@.len() == 7);
        assert("bucket"@[0] == 'b' && "person"@[0] == 'p');
    }

    pub fn name(self) -> (s: &'static str)
        ensures
            s@ == self.name_of(),
    {
        match self {
            ClassLabel::Hen => "hen",
            ClassLabel::Bucket => "bucket",
            ClassLabel::Cone => "cone",
            ClassLabel::Pylon => "pylon",
            ClassLabel::Person => "person",
            ClassLabel::Roktrack => "roktrack",
            ClassLabel::Nothing => "nothing",
        }
    }
}

/// Which of the two trained models is loaded.
#[derive(Clone, Copy, Debug, PartialEq, Eq, Structural)]
pub enum ModelVariant {
    A,
    B,
}

impl ModelVariant {
    /// The classes of the model, in the order of its score columns.
    pub open spec fn labels(self) -> Seq<ClassLabel> {
        match self {
            ModelVariant::A => seq![ClassLabel::Hen, ClassLabel::Bucket, ClassLabel::Cone],
            ModelVariant::B => seq![ClassLabel::Pylon, ClassLabel::Person, ClassLabel::Roktrack],
        }
    }

    /// The class of score column `class_index`, if the model has that column.
    pub fn label(self, class_index: usize) -> (r: Option<ClassLabel>)
        ensures
            r is Some <==> class_index < CLASS_COUNT,
            r matches Some(l) ==> l == self.labels()[class_index as int],
            self.labels().len() == CLASS_COUNT,
    {
        match (self, class_index) {
            (ModelVariant::A, 0) => Some(ClassLabel::Hen),
            (ModelVariant::A, 1) => Some(ClassLabel::Bucket),
            (ModelVariant::A, 2) => Some(ClassLabel::Cone),
            (ModelVariant::B, 0) => Some(ClassLabel::Pylon),
            (ModelVariant::B, 1) => Some(ClassLabel::Person),
            (ModelVariant::B, 2) => Some(ClassLabel::Roktrack),
            _ => None,
        }
    }

    /// The model that goes by `name`: `A` or `B`.
    pub open spec fn named(name: Seq<char>) -> Option<ModelVariant> {
        if name == "A"@ {
            Some(ModelVariant::A)
        } else if name == "B"@ {
            Some(ModelVariant::B)
        } else {
            None
        }
    }

    /// The model that goes by `name`: `A` or `B`.
    pub fn from_name(name: &str) -> (r: Option<ModelVariant>)
        ensures
            r == ModelVariant::named(name@),
    {
        if same_text(name, "A") {
            Some(ModelVariant::A)
        } else if same_text(name, "B") {
            Some(ModelVariant::B)
        } else {
            None
        }
    }

    /// Path of the model's weights.
    pub open spec fn model_file_of(self) -> Seq<char> {
        match self {
            ModelVariant::A => "./yolov8n_hen_bucket_cone_640.onnx"@,
            ModelVariant::B => "./roktrack_yolov8_nano_fixed_640_640.onnx"@,
        }
    }

    pub fn model_file(self) -> (s: &'static str)
        ensures
            s@ == self.model_file_of(),
    {
        match self {
            ModelVariant::A => "./yolov8n_hen_bucket_cone_640.onnx",
            ModelVariant::B => "./roktrack_yolov8_nano_fixed_640_640.onnx",
        }
    }
}

} // verus!
