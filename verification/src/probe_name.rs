//! The closed set of probe names understood by the external runner.

use vstd::prelude::*;

verus! {

/// One named security/hygiene check of the external runner.
///
/// The variants are spelled exactly as the runner spells them, which is
/// why they are not camel case.
#[allow(non_camel_case_types)]
#[derive(Debug, Clone, Copy, PartialEq, Eq, Structural)]
pub enum ProbeName {
    archived,
    blocksDeleteOnBranches,
    blocksForcePushOnBranches,
    branchProtectionAppliesToAdmins,
    branchesAreProtected,
    codeApproved,
    codeReviewOneReviewers,
    contributorsFromOrgOrCompany,
    createdRecently,
    dependencyUpdateToolConfigured,
    dismissesStaleReviews,
    fuzzed,
    hasBinaryArtifacts,
    hasDangerousWorkflowScriptInjection,
    hasDangerousWorkflowUntrustedCheckout,
    hasFSFOrOSIApprovedLicense,
    hasLicenseFile,
    hasNoGitHubWorkflowPermissionUnknown,
    hasOSVVulnerabilities,
    hasOpenSSFBadge,
    hasPermissiveLicense,
    hasRecentCommits,
    hasReleaseSBOM,
    hasSBOM,
    hasUnverifiedBinaryArtifacts,
    issueActivityByProjectMember,
    jobLevelPermissions,
    packagedWithAutomatedWorkflow,
    pinsDependencies,
    releasesAreSigned,
    releasesHaveProvenance,
    releasesHaveVerifiedProvenance,
    requiresApproversForPullRequests,
    requiresCodeOwnersReview,
    requiresLastPushApproval,
    requiresPRsToChangeCode,
    requiresUpToDateBranches,
    runsStatusChecksBeforeMerging,
    sastToolConfigured,
    sastToolRunsOnAllCommits,
    securityPolicyContainsLinks,
    securityPolicyContainsText,
    securityPolicyContainsVulnerabilityDisclosure,
    securityPolicyPresent,
    testsRunInCI,
    topLevelPermissions,
    unsafeblock,
    webhooksUseSecrets,
}

impl ProbeName {
    /// The characters of this probe's name.
    pub open spec fn name_chars(self) -> Seq<char> {
        match self {
            ProbeName::archived => "archived"@,
            ProbeName::blocksDeleteOnBranches => "blocksDeleteOnBranches"@,
            ProbeName::blocksForcePushOnBranches => "blocksForcePushOnBranches"@,
            ProbeName::branchProtectionAppliesToAdmins => "branchProtectionAppliesToAdmins"@,
            ProbeName::branchesAreProtected => "branchesAreProtected"@,
            ProbeName::codeApproved => "codeApproved"@,
            ProbeName::codeReviewOneReviewers => "codeReviewOneReviewers"@,
            ProbeName::contributorsFromOrgOrCompany => "contributorsFromOrgOrCompany"@,
            ProbeName::createdRecently => "createdRecently"@,
            ProbeName::dependencyUpdateToolConfigured => "dependencyUpdateToolConfigured"@,
            ProbeName::dismissesStaleReviews => "dismissesStaleReviews"@,
            ProbeName::fuzzed => "fuzzed"@,
            ProbeName::hasBinaryArtifacts => "hasBinaryArtifacts"@,
            ProbeName::hasDangerousWorkflowScriptInjection => "hasDangerousWorkflowScriptInjection"@,
            ProbeName::hasDangerousWorkflowUntrustedCheckout => "hasDangerousWorkflowUntrustedCheckout"@,
            ProbeName::hasFSFOrOSIApprovedLicense => "hasFSFOrOSIApprovedLicense"@,
            ProbeName::hasLicenseFile => "hasLicenseFile"@,
            ProbeName::hasNoGitHubWorkflowPermissionUnknown => "hasNoGitHubWorkflowPermissionUnknown"@,
            ProbeName::hasOSVVulnerabilities => "hasOSVVulnerabilities"@,
            ProbeName::hasOpenSSFBadge => "hasOpenSSFBadge"@,
            ProbeName::hasPermissiveLicense => "hasPermissiveLicense"@,
            ProbeName::hasRecentCommits => "hasRecentCommits"@,
            ProbeName::hasReleaseSBOM => "hasReleaseSBOM"@,
            ProbeName::hasSBOM => "hasSBOM"@,
            ProbeName::hasUnverifiedBinaryArtifacts => "hasUnverifiedBinaryArtifacts"@,
            ProbeName::issueActivityByProjectMember => "issueActivityByProjectMember"@,
            ProbeName::jobLevelPermissions => "jobLevelPermissions"@,
            ProbeName::packagedWithAutomatedWorkflow => "packagedWithAutomatedWorkflow"@,
            ProbeName::pinsDependencies => "pinsDependencies"@,
            ProbeName::releasesAreSigned => "releasesAreSigned"@,
            ProbeName::releasesHaveProvenance => "releasesHaveProvenance"@,
            ProbeName::releasesHaveVerifiedProvenance => "releasesHaveVerifiedProvenance"@,
            ProbeName::requiresApproversForPullRequests => "requiresApproversForPullRequests"@,
            ProbeName::requiresCodeOwnersReview => "requiresCodeOwnersReview"@,
            ProbeName::requiresLastPushApproval => "requiresLastPushApproval"@,
            ProbeName::requiresPRsToChangeCode => "requiresPRsToChangeCode"@,
            ProbeName::requiresUpToDateBranches => "requiresUpToDateBranches"@,
            ProbeName::runsStatusChecksBeforeMerging => "runsStatusChecksBeforeMerging"@,
            ProbeName::sastToolConfigured => "sastToolConfigured"@,
            ProbeName::sastToolRunsOnAllCommits => "sastToolRunsOnAllCommits"@,
            ProbeName::securityPolicyContainsLinks => "securityPolicyContainsLinks"@,
            ProbeName::securityPolicyContainsText => "securityPolicyContainsText"@,
            ProbeName::securityPolicyContainsVulnerabilityDisclosure => "securityPolicyContainsVulnerabilityDisclosure"@,
            ProbeName::securityPolicyPresent => "securityPolicyPresent"@,
            ProbeName::testsRunInCI => "testsRunInCI"@,
            ProbeName::topLevelPermissions => "topLevelPermissions"@,
            ProbeName::unsafeblock => "unsafeblock"@,
            ProbeName::webhooksUseSecrets => "webhooksUseSecrets"@,
        }
    }

    /// The position of this probe in the fixed name order; the order of the
    /// variants is the ascending order of the names themselves.
    pub open spec fn order(self) -> int {
        match self {
            ProbeName::archived => 0,
            ProbeName::blocksDeleteOnBranches => 1,
            ProbeName::blocksForcePushOnBranches => 2,
            ProbeName::branchProtectionAppliesToAdmins => 3,
            ProbeName::branchesAreProtected => 4,
            ProbeName::codeApproved => 5,
            ProbeName::codeReviewOneReviewers => 6,
            ProbeName::contributorsFromOrgOrCompany => 7,
            ProbeName::createdRecently => 8,
            ProbeName::dependencyUpdateToolConfigured => 9,
            ProbeName::dismissesStaleReviews => 10,
            ProbeName::fuzzed => 11,
            ProbeName::hasBinaryArtifacts => 12,
            ProbeName::hasDangerousWorkflowScriptInjection => 13,
            ProbeName::hasDangerousWorkflowUntrustedCheckout => 14,
            ProbeName::hasFSFOrOSIApprovedLicense => 15,
            ProbeName::hasLicenseFile => 16,
            ProbeName::hasNoGitHubWorkflowPermissionUnknown => 17,
            ProbeName::hasOSVVulnerabilities => 18,
            ProbeName::hasOpenSSFBadge => 19,
            ProbeName::hasPermissiveLicense => 20,
            ProbeName::hasRecentCommits => 21,
            ProbeName::hasReleaseSBOM => 22,
            ProbeName::hasSBOM => 23,
            ProbeName::hasUnverifiedBinaryArtifacts => 24,
            ProbeName::issueActivityByProjectMember => 25,
            ProbeName::jobLevelPermissions => 26,
            ProbeName::packagedWithAutomatedWorkflow => 27,
            ProbeName::pinsDependencies => 28,
            ProbeName::releasesAreSigned => 29,
            ProbeName::releasesHaveProvenance => 30,
            ProbeName::releasesHaveVerifiedProvenance => 31,
            ProbeName::requiresApproversForPullRequests => 32,
            ProbeName::requiresCodeOwnersReview => 33,
            ProbeName::requiresLastPushApproval => 34,
            ProbeName::requiresPRsToChangeCode => 35,
            ProbeName::requiresUpToDateBranches => 36,
            ProbeName::runsStatusChecksBeforeMerging => 37,
            ProbeName::sastToolConfigured => 38,
            ProbeName::sastToolRunsOnAllCommits => 39,
            ProbeName::securityPolicyContainsLinks => 40,
            ProbeName::securityPolicyContainsText => 41,
            ProbeName::securityPolicyContainsVulnerabilityDisclosure => 42,
            ProbeName::securityPolicyPresent => 43,
            ProbeName::testsRunInCI => 44,
            ProbeName::topLevelPermissions => 45,
            ProbeName::unsafeblock => 46,
            ProbeName::webhooksUseSecrets => 47,
        }
    }

    /// The name of the probe, spelled as the external runner and the metric
    /// files spell it.
    pub fn as_str(&self) -> (r: &'static str)
        ensures
            r@ == self.name_chars(),
    {
        match self {
            ProbeName::archived => "archived",
            ProbeName::blocksDeleteOnBranches => "blocksDeleteOnBranches",
            ProbeName::blocksForcePushOnBranches => "blocksForcePushOnBranches",
            ProbeName::branchProtectionAppliesToAdmins => "branchProtectionAppliesToAdmins",
            ProbeName::branchesAreProtected => "branchesAreProtected",
            ProbeName::codeApproved => "codeApproved",
            ProbeName::codeReviewOneReviewers => "codeReviewOneReviewers",
            ProbeName::contributorsFromOrgOrCompany => "contributorsFromOrgOrCompany",
            ProbeName::createdRecently => "createdRecently",
            ProbeName::dependencyUpdateToolConfigured => "dependencyUpdateToolConfigured",
            ProbeName::dismissesStaleReviews => "dismissesStaleReviews",
            ProbeName::fuzzed => "fuzzed",
            ProbeName::hasBinaryArtifacts => "hasBinaryArtifacts",
            ProbeName::hasDangerousWorkflowScriptInjection => "hasDangerousWorkflowScriptInjection",
            ProbeName::hasDangerousWorkflowUntrustedCheckout => "hasDangerousWorkflowUntrustedCheckout",
            ProbeName::hasFSFOrOSIApprovedLicense => "hasFSFOrOSIApprovedLicense",
            ProbeName::hasLicenseFile => "hasLicenseFile",
            ProbeName::hasNoGitHubWorkflowPermissionUnknown => "hasNoGitHubWorkflowPermissionUnknown",
            ProbeName::hasOSVVulnerabilities => "hasOSVVulnerabilities",
            ProbeName::hasOpenSSFBadge => "hasOpenSSFBadge",
            ProbeName::hasPermissiveLicense => "hasPermissiveLicense",
            ProbeName::hasRecentCommits => "hasRecentCommits",
            ProbeName::hasReleaseSBOM => "hasReleaseSBOM",
            ProbeName::hasSBOM => "hasSBOM",
            ProbeName::hasUnverifiedBinaryArtifacts => "hasUnverifiedBinaryArtifacts",
            ProbeName::issueActivityByProjectMember => "issueActivityByProjectMember",
            ProbeName::jobLevelPermissions => "jobLevelPermissions",
            ProbeName::packagedWithAutomatedWorkflow => "packagedWithAutomatedWorkflow",
            ProbeName::pinsDependencies => "pinsDependencies",
            ProbeName::releasesAreSigned => "releasesAreSigned",
            ProbeName::releasesHaveProvenance => "releasesHaveProvenance",
            ProbeName::releasesHaveVerifiedProvenance => "releasesHaveVerifiedProvenance",
            ProbeName::requiresApproversForPullRequests => "requiresApproversForPullRequests",
            ProbeName::requiresCodeOwnersReview => "requiresCodeOwnersReview",
            ProbeName::requiresLastPushApproval => "requiresLastPushApproval",
            ProbeName::requiresPRsToChangeCode => "requiresPRsToChangeCode",
            ProbeName::requiresUpToDateBranches => "requiresUpToDateBranches",
            ProbeName::runsStatusChecksBeforeMerging => "runsStatusChecksBeforeMerging",
            ProbeName::sastToolConfigured => "sastToolConfigured",
            ProbeName::sastToolRunsOnAllCommits => "sastToolRunsOnAllCommits",
            ProbeName::securityPolicyContainsLinks => "securityPolicyContainsLinks",
            ProbeName::securityPolicyContainsText => "securityPolicyContainsText",
            ProbeName::securityPolicyContainsVulnerabilityDisclosure => "securityPolicyContainsVulnerabilityDisclosure",
            ProbeName::securityPolicyPresent => "securityPolicyPresent",
            ProbeName::testsRunInCI => "testsRunInCI",
            ProbeName::topLevelPermissions => "topLevelPermissions",
            ProbeName::unsafeblock => "unsafeblock",
            ProbeName::webhooksUseSecrets => "webhooksUseSecrets",
        }
    }


    /// Resolves a probe name as the metric files spell it; an unknown
    /// name resolves to nothing, which callers treat as a hard error.
    pub fn from_str(s: &str) -> (r: Option<ProbeName>)
        ensures
            r matches Some(p) ==> s@ == p.name_chars(),
            r is None ==> forall|p: ProbeName| s@ != p.name_chars(),
    {
        if crate::text::str_equal(s, "archived") {
            return Some(ProbeName::archived);
        }
        if crate::text::str_equal(s, "blocksDeleteOnBranches") {
            return Some(ProbeName::blocksDeleteOnBranches);
        }
        if crate::text::str_equal(s, "blocksForcePushOnBranches") {
            return Some(ProbeName::blocksForcePushOnBranches);
        }
        if crate::text::str_equal(s, "branchProtectionAppliesToAdmins") {
            return Some(ProbeName::branchProtectionAppliesToAdmins);
        }
        if crate::text::str_equal(s, "branchesAreProtected") {
            return Some(ProbeName::branchesAreProtected);
        }
        if crate::text::str_equal(s, "codeApproved") {
            return Some(ProbeName::codeApproved);
        }
        if crate::text::str_equal(s, "codeReviewOneReviewers") {
            return Some(ProbeName::codeReviewOneReviewers);
        }
        if crate::text::str_equal(s, "contributorsFromOrgOrCompany") {
            return Some(ProbeName::contributorsFromOrgOrCompany);
        }
        if crate::text::str_equal(s, "createdRecently") {
            return Some(ProbeName::createdRecently);
        }
        if crate::text::str_equal(s, "dependencyUpdateToolConfigured") {
            return Some(ProbeName::dependencyUpdateToolConfigured);
        }
        if crate::text::str_equal(s, "dismissesStaleReviews") {
            return Some(ProbeName::dismissesStaleReviews);
        }
        if crate::text::str_equal(s, "fuzzed") {
            return Some(ProbeName::fuzzed);
        }
        if crate::text::str_equal(s, "hasBinaryArtifacts") {
            return Some(ProbeName::hasBinaryArtifacts);
        }
        if crate::text::str_equal(s, "hasDangerousWorkflowScriptInjection") {
            return Some(ProbeName::hasDangerousWorkflowScriptInjection);
        }
        if crate::text::str_equal(s, "hasDangerousWorkflowUntrustedCheckout") {
            return Some(ProbeName::hasDangerousWorkflowUntrustedCheckout);
        }
        if crate::text::str_equal(s, "hasFSFOrOSIApprovedLicense") {
            return Some(ProbeName::hasFSFOrOSIApprovedLicense);
        }
        if crate::text::str_equal(s, "hasLicenseFile") {
            return Some(ProbeName::hasLicenseFile);
        }
        if crate::text::str_equal(s, "hasNoGitHubWorkflowPermissionUnknown") {
            return Some(ProbeName::hasNoGitHubWorkflowPermissionUnknown);
        }
        if crate::text::str_equal(s, "hasOSVVulnerabilities") {
            return Some(ProbeName::hasOSVVulnerabilities);
        }
        if crate::text::str_equal(s, "hasOpenSSFBadge") {
            return Some(ProbeName::hasOpenSSFBadge);
        }
        if crate::text::str_equal(s, "hasPermissiveLicense") {
            return Some(ProbeName::hasPermissiveLicense);
        }
        if crate::text::str_equal(s, "hasRecentCommits") {
            return Some(ProbeName::hasRecentCommits);
        }
        if crate::text::str_equal(s, "hasReleaseSBOM") {
            return Some(ProbeName::hasReleaseSBOM);
        }
        if crate::text::str_equal(s, "hasSBOM") {
            return Some(ProbeName::hasSBOM);
        }
        if crate::text::str_equal(s, "hasUnverifiedBinaryArtifacts") {
            return Some(ProbeName::hasUnverifiedBinaryArtifacts);
        }
        if crate::text::str_equal(s, "issueActivityByProjectMember") {
            return Some(ProbeName::issueActivityByProjectMember);
        }
        if crate::text::str_equal(s, "jobLevelPermissions") {
            return Some(ProbeName::jobLevelPermissions);
        }
        if crate::text::str_equal(s, "packagedWithAutomatedWorkflow") {
            return Some(ProbeName::packagedWithAutomatedWorkflow);
        }
        if crate::text::str_equal(s, "pinsDependencies") {
            return Some(ProbeName::pinsDependencies);
        }
        if crate::text::str_equal(s, "releasesAreSigned") {
            return Some(ProbeName::releasesAreSigned);
        }
        if crate::text::str_equal(s, "releasesHaveProvenance") {
            return Some(ProbeName::releasesHaveProvenance);
        }
        if crate::text::str_equal(s, "releasesHaveVerifiedProvenance") {
            return Some(ProbeName::releasesHaveVerifiedProvenance);
        }
        if crate::text::str_equal(s, "requiresApproversForPullRequests") {
            return Some(ProbeName::requiresApproversForPullRequests);
        }
        if crate::text::str_equal(s, "requiresCodeOwnersReview") {
            return Some(ProbeName::requiresCodeOwnersReview);
        }
        if crate::text::str_equal(s, "requiresLastPushApproval") {
            return Some(ProbeName::requiresLastPushApproval);
        }
        if crate::text::str_equal(s, "requiresPRsToChangeCode") {
            return Some(ProbeName::requiresPRsToChangeCode);
        }
        if crate::text::str_equal(s, "requiresUpToDateBranches") {
            return Some(ProbeName::requiresUpToDateBranches);
        }
        if crate::text::str_equal(s, "runsStatusChecksBeforeMerging") {
            return Some(ProbeName::runsStatusChecksBeforeMerging);
        }
        if crate::text::str_equal(s, "sastToolConfigured") {
            return Some(ProbeName::sastToolConfigured);
        }
        if crate::text::str_equal(s, "sastToolRunsOnAllCommits") {
            return Some(ProbeName::sastToolRunsOnAllCommits);
        }
        if crate::text::str_equal(s, "securityPolicyContainsLinks") {
            return Some(ProbeName::securityPolicyContainsLinks);
        }
        if crate::text::str_equal(s, "securityPolicyContainsText") {
            return Some(ProbeName::securityPolicyContainsText);
        }
        if crate::text::str_equal(s, "securityPolicyContainsVulnerabilityDisclosure") {
            return Some(ProbeName::securityPolicyContainsVulnerabilityDisclosure);
        }
        if crate::text::str_equal(s, "securityPolicyPresent") {
            return Some(ProbeName::securityPolicyPresent);
        }
        if crate::text::str_equal(s, "testsRunInCI") {
            return Some(ProbeName::testsRunInCI);
        }
        if crate::text::str_equal(s, "topLevelPermissions") {
            return Some(ProbeName::topLevelPermissions);
        }
        if crate::text::str_equal(s, "unsafeblock") {
            return Some(ProbeName::unsafeblock);
        }
        if crate::text::str_equal(s, "webhooksUseSecrets") {
            return Some(ProbeName::webhooksUseSecrets);
        }
        proof {
            assert forall|p: ProbeName| s@ != p.name_chars() by {
                if s@ == p.name_chars() {
                    assert(false);
                }
            }
        }
        None
    }

    /// The position of this probe in the fixed name order, as a number the
    /// sorting routines can compare.
    pub fn position(&self) -> (r: u64)
        ensures
            r == self.order(),
    {
        match self {
            ProbeName::archived => 0,
            ProbeName::blocksDeleteOnBranches => 1,
            ProbeName::blocksForcePushOnBranches => 2,
            ProbeName::branchProtectionAppliesToAdmins => 3,
            ProbeName::branchesAreProtected => 4,
            ProbeName::codeApproved => 5,
            ProbeName::codeReviewOneReviewers => 6,
            ProbeName::contributorsFromOrgOrCompany => 7,
            ProbeName::createdRecently => 8,
            ProbeName::dependencyUpdateToolConfigured => 9,
            ProbeName::dismissesStaleReviews => 10,
            ProbeName::fuzzed => 11,
            ProbeName::hasBinaryArtifacts => 12,
            ProbeName::hasDangerousWorkflowScriptInjection => 13,
            ProbeName::hasDangerousWorkflowUntrustedCheckout => 14,
            ProbeName::hasFSFOrOSIApprovedLicense => 15,
            ProbeName::hasLicenseFile => 16,
            ProbeName::hasNoGitHubWorkflowPermissionUnknown => 17,
            ProbeName::hasOSVVulnerabilities => 18,
            ProbeName::hasOpenSSFBadge => 19,
            ProbeName::hasPermissiveLicense => 20,
            ProbeName::hasRecentCommits => 21,
            ProbeName::hasReleaseSBOM => 22,
            ProbeName::hasSBOM => 23,
            ProbeName::hasUnverifiedBinaryArtifacts => 24,
            ProbeName::issueActivityByProjectMember => 25,
            ProbeName::jobLevelPermissions => 26,
            ProbeName::packagedWithAutomatedWorkflow => 27,
            ProbeName::pinsDependencies => 28,
            ProbeName::releasesAreSigned => 29,
            ProbeName::releasesHaveProvenance => 30,
            ProbeName::releasesHaveVerifiedProvenance => 31,
            ProbeName::requiresApproversForPullRequests => 32,
            ProbeName::requiresCodeOwnersReview => 33,
            ProbeName::requiresLastPushApproval => 34,
            ProbeName::requiresPRsToChangeCode => 35,
            ProbeName::requiresUpToDateBranches => 36,
            ProbeName::runsStatusChecksBeforeMerging => 37,
            ProbeName::sastToolConfigured => 38,
            ProbeName::sastToolRunsOnAllCommits => 39,
            ProbeName::securityPolicyContainsLinks => 40,
            ProbeName::securityPolicyContainsText => 41,
            ProbeName::securityPolicyContainsVulnerabilityDisclosure => 42,
            ProbeName::securityPolicyPresent => 43,
            ProbeName::testsRunInCI => 44,
            ProbeName::topLevelPermissions => 45,
            ProbeName::unsafeblock => 46,
            ProbeName::webhooksUseSecrets => 47,
        }
    }
}

} // verus!
