//! The programs that a pipeline can work with, and how they are named.
use crate::text::Text;
use vstd::prelude::*;

verus! {

/// A program for molecular dynamics.
#[derive(Clone, Copy, PartialEq, Eq, Structural, Debug)]
pub enum MdEngine {
    /// LAMMPS.
    Lammps,
}

impl MdEngine {
    /// Its name.
    pub open spec fn name(self) -> Text {
        "lammps"@
    }

    /// Its name.
    pub fn as_str(&self) -> (r: &'static str)
        ensures
            r@ == self.name(),
    {
        match self {
            MdEngine::Lammps => "lammps",
        }
    }
}

/// A program for density functional theory.
#[derive(Clone, Copy, PartialEq, Eq, Structural, Debug)]
pub enum DftCode {
    /// VASP.
    Vasp,
}

impl DftCode {
    /// Its name.
    pub open spec fn name(self) -> Text {
        "vasp"@
    }

    /// Its name.
    pub fn as_str(&self) -> (r: &'static str)
        ensures
            r@ == self.name(),
    {
        match self {
            DftCode::Vasp => "vasp",
        }
    }
}

/// A kind of model.
#[derive(Clone, Copy, PartialEq, Eq, Structural, Debug)]
pub enum ModelBackend {
    /// Fine-tuned foundation models.
    Upet,
    /// Neural network potentials.
    N2p2,
}

impl ModelBackend {
    /// Its name, as people write it.
    pub open spec fn name(self) -> Text {
        match self {
            ModelBackend::Upet => "UPET"@,
            ModelBackend::N2p2 => "n2p2"@,
        }
    }

    /// Its name in files and environments.
    pub open spec fn key(self) -> Text {
        match self {
            ModelBackend::Upet => "upet"@,
            ModelBackend::N2p2 => "n2p2"@,
        }
    }

    /// The script that prepares its training data.
    pub open spec fn script(self) -> Text {
        match self {
            ModelBackend::Upet => "poscar_to_upet.py"@,
            ModelBackend::N2p2 => "poscar_to_n2p2.py"@,
        }
    }

    /// Its name, as people write it.
    pub fn as_str(&self) -> (r: &'static str)
        ensures
            r@ == self.name(),
    {
        match self {
            ModelBackend::Upet => "UPET",
            ModelBackend::N2p2 => "n2p2",
        }
    }

    /// Its name in files.
    pub fn backend_key(&self) -> (r: &'static str)
        ensures
            r@ == self.key(),
    {
        match self {
            ModelBackend::Upet => "upet",
            ModelBackend::N2p2 => "n2p2",
        }
    }

    /// The environment in which its scripts run.
    pub fn pixi_env(&self) -> (r: &'static str)
        ensures
            r@ == self.key(),
    {
        self.backend_key()
    }

    /// The script that prepares its training data.
    pub fn python_script(&self) -> (r: &'static str)
        ensures
            r@ == self.script(),
    {
        match self {
            ModelBackend::Upet => "poscar_to_upet.py",
            ModelBackend::N2p2 => "poscar_to_n2p2.py",
        }
    }
}

/// Which energies a model is trained on.
#[derive(Clone, Copy, PartialEq, Eq, Structural, Debug)]
pub enum EnergyMode {
    /// Energies aligned to the foundation model.
    Pet,
    /// Energies as they were computed.
    Raw,
}

impl EnergyMode {
    /// Its name.
    pub open spec fn name(self) -> Text {
        match self {
            EnergyMode::Pet => "pet"@,
            EnergyMode::Raw => "raw"@,
        }
    }

    /// The name of the energies in the training data.
    pub open spec fn key(self) -> Text {
        match self {
            EnergyMode::Pet => "energy-corrected"@,
            EnergyMode::Raw => "energy"@,
        }
    }

    /// Its name.
    pub fn as_str(&self) -> (r: &'static str)
        ensures
            r@ == self.name(),
    {
        match self {
            EnergyMode::Pet => "pet",
            EnergyMode::Raw => "raw",
        }
    }

    /// The name of the energies in the training data.
    pub fn training_key(&self) -> (r: &'static str)
        ensures
            r@ == self.key(),
    {
        match self {
            EnergyMode::Pet => "energy-corrected",
            EnergyMode::Raw => "energy",
        }
    }
}

/// A measure of disagreement.
#[derive(Clone, Copy, PartialEq, Eq, Structural, Debug)]
pub enum QbcMethod {
    /// The relative root mean squared force deviation.
    Rrmsfd,
}

impl QbcMethod {
    /// Its name.
    pub open spec fn name(self) -> Text {
        "RRMSFD (relative root mean squared force deviation)"@
    }

    /// Its name.
    pub fn as_str(&self) -> (r: &'static str)
        ensures
            r@ == self.name(),
    {
        match self {
            QbcMethod::Rrmsfd => "RRMSFD (relative root mean squared force deviation)",
        }
    }
}

/// How disagreement is computed.
#[derive(Clone, Copy, PartialEq, Eq, Structural, Debug)]
pub enum DisagreementMode {
    /// By a stand-in that needs no models.
    Mock,
    /// By the models of the committee.
    Real,
}

/// What a simulation needs of a trained model.
#[derive(Clone, Copy, PartialEq, Eq, Structural, Debug)]
pub enum MdModelPackage {
    /// The model of a fine-tuned foundation model.
    UpetModel,
    /// The inputs of a neural network potential.
    N2p2Inputs,
}

} // verus!
